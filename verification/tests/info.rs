use haproxy_stats::bind::Fault;
use haproxy_stats::formats::tree::{EnvelopeError, Json};
use haproxy_stats::bind::Attribute;
use haproxy_stats::formats::json::Value;
use haproxy_stats::info::{
    Date, Info, InfoFromJsonBytesError, InfoFromKvBytesError, InfoValueError, JsonOutput,
    RawInfo, Span, Version,
};

const SHOW_INFO_TXT: &str = "\
Name: HAProxy\n\
Version: 2.5.5-384c5c5\n\
Release_date: 2022/03/14\n\
Nbthread: 4\n\
Nbproc: 1\n\
Process_num: 1\n\
Pid: 8\n\
Uptime: 0d 0h03m28s\n\
Uptime_sec: 208\n\
Memmax_MB: 0\n\
PoolAlloc_MB: 0\n\
PoolUsed_MB: 0\n\
PoolFailed: 0\n\
Ulimit-n: 524287\n\
Maxsock: 524287\n\
Maxconn: 262121\n\
Hard_maxconn: 262121\n\
CurrConns: 0\n\
CumConns: 52\n\
CumReq: 46\n\
MaxSslConns: 0\n\
CurrSslConns: 0\n\
CumSslConns: 0\n\
Maxpipes: 0\n\
PipesUsed: 0\n\
PipesFree: 0\n\
ConnRate: 0\n\
ConnRateLimit: 0\n\
MaxConnRate: 2\n\
SessRate: 0\n\
SessRateLimit: 0\n\
MaxSessRate: 2\n\
SslRate: 0\n\
SslRateLimit: 0\n\
MaxSslRate: 0\n\
SslFrontendKeyRate: 0\n\
SslFrontendMaxKeyRate: 0\n\
SslFrontendSessionReuse_pct: 0\n\
SslBackendKeyRate: 0\n\
SslBackendMaxKeyRate: 0\n\
SslCacheLookups: 0\n\
SslCacheMisses: 0\n\
CompressBpsIn: 0\n\
CompressBpsOut: 0\n\
CompressBpsRateLim: 0\n\
Tasks: 20\n\
Run_queue: 0\n\
Idle_pct: 100\n\
node: d3a1f0c2b7e4\n\
Stopping: 0\n\
Jobs: 9\n\
Unstoppable Jobs: 1\n\
Listeners: 8\n\
ActivePeers: 0\n\
ConnectedPeers: 0\n\
DroppedLogs: 0\n\
BusyPolling: 0\n\
FailedResolutions: 0\n\
TotalBytesOut: 58966\n\
TotalSplicdedBytesOut: 0\n\
BytesOutRate: 0\n\
DebugCommandsIssued: 0\n\
CumRecvLogs: 0\n\
Build info: 2.5.5-384c5c5\n\
Memmax_bytes: 0\n\
PoolAlloc_bytes: 398016\n\
PoolUsed_bytes: 398016\n\
Start_time_sec: 1647250203\n\
Tainted: 0\n\
\n\
";

const SHOW_INFO_JSON: &str = "\
[{\"field\":{\"pos\":0,\"name\":\"Name\"},\"processNum\":1,\"tags\":{\"origin\":\"Product\",\
\"nature\":\"Output\",\"scope\":\"Service\"},\"value\":{\"type\":\"str\",\
\"value\":\"HAProxy\"}},{\"field\":{\"pos\":1,\"name\":\"Version\"},\"processNum\":1,\
\"tags\":{\"origin\":\"Product\",\"nature\":\"Output\",\"scope\":\"Service\"},\
\"value\":{\"type\":\"str\",\"value\":\"2.5.5-384c5c5\"}},{\"field\":{\"pos\":2,\
\"name\":\"Release_date\"},\"processNum\":1,\"tags\":{\"origin\":\"Product\",\
\"nature\":\"Output\",\"scope\":\"Service\"},\"value\":{\"type\":\"str\",\
\"value\":\"2022/03/14\"}},{\"field\":{\"pos\":3,\"name\":\"Nbthread\"},\"processNum\":1,\
\"tags\":{\"origin\":\"Metric\",\"nature\":\"Output\",\"scope\":\"Service\"},\
\"value\":{\"type\":\"u32\",\"value\":4}},{\"field\":{\"pos\":4,\"name\":\"Nbproc\"},\
\"processNum\":1,\"tags\":{\"origin\":\"Metric\",\"nature\":\"Output\",\"scope\":\"Service\"},\
\"value\":{\"type\":\"u32\",\"value\":1}},{\"field\":{\"pos\":5,\"name\":\"Process_num\"},\
\"processNum\":1,\"tags\":{\"origin\":\"Metric\",\"nature\":\"Output\",\"scope\":\"Service\"},\
\"value\":{\"type\":\"u32\",\"value\":1}},{\"field\":{\"pos\":6,\"name\":\"Pid\"},\
\"processNum\":1,\"tags\":{\"origin\":\"Metric\",\"nature\":\"Output\",\"scope\":\"Service\"},\
\"value\":{\"type\":\"u32\",\"value\":8}},{\"field\":{\"pos\":7,\"name\":\"Uptime\"},\
\"processNum\":1,\"tags\":{\"origin\":\"Product\",\"nature\":\"Output\",\"scope\":\"Service\"},\
\"value\":{\"type\":\"str\",\"value\":\"0d 0h03m28s\"}},{\"field\":{\"pos\":8,\
\"name\":\"Uptime_sec\"},\"processNum\":1,\"tags\":{\"origin\":\"Metric\",\"nature\":\"Output\",\
\"scope\":\"Service\"},\"value\":{\"type\":\"u32\",\"value\":208}},{\"field\":{\"pos\":9,\
\"name\":\"Memmax_MB\"},\"processNum\":1,\"tags\":{\"origin\":\"Metric\",\"nature\":\"Output\",\
\"scope\":\"Service\"},\"value\":{\"type\":\"u32\",\"value\":0}},{\"field\":{\"pos\":10,\
\"name\":\"PoolAlloc_MB\"},\"processNum\":1,\"tags\":{\"origin\":\"Metric\",\
\"nature\":\"Output\",\"scope\":\"Service\"},\"value\":{\"type\":\"u32\",\"value\":0}},\
{\"field\":{\"pos\":11,\"name\":\"PoolUsed_MB\"},\"processNum\":1,\
\"tags\":{\"origin\":\"Metric\",\"nature\":\"Output\",\"scope\":\"Service\"},\
\"value\":{\"type\":\"u32\",\"value\":0}},{\"field\":{\"pos\":12,\"name\":\"PoolFailed\"},\
\"processNum\":1,\"tags\":{\"origin\":\"Metric\",\"nature\":\"Output\",\"scope\":\"Service\"},\
\"value\":{\"type\":\"u32\",\"value\":0}},{\"field\":{\"pos\":13,\"name\":\"Ulimit-n\"},\
\"processNum\":1,\"tags\":{\"origin\":\"Metric\",\"nature\":\"Output\",\"scope\":\"Service\"},\
\"value\":{\"type\":\"u32\",\"value\":524287}},{\"field\":{\"pos\":14,\"name\":\"Maxsock\"},\
\"processNum\":1,\"tags\":{\"origin\":\"Metric\",\"nature\":\"Output\",\"scope\":\"Service\"},\
\"value\":{\"type\":\"u32\",\"value\":524287}},{\"field\":{\"pos\":15,\"name\":\"Maxconn\"},\
\"processNum\":1,\"tags\":{\"origin\":\"Metric\",\"nature\":\"Output\",\"scope\":\"Service\"},\
\"value\":{\"type\":\"u32\",\"value\":262121}},{\"field\":{\"pos\":16,\
\"name\":\"Hard_maxconn\"},\"processNum\":1,\"tags\":{\"origin\":\"Metric\",\
\"nature\":\"Output\",\"scope\":\"Service\"},\"value\":{\"type\":\"u32\",\"value\":262121}},\
{\"field\":{\"pos\":17,\"name\":\"CurrConns\"},\"processNum\":1,\"tags\":{\"origin\":\"Metric\",\
\"nature\":\"Output\",\"scope\":\"Service\"},\"value\":{\"type\":\"u32\",\"value\":0}},\
{\"field\":{\"pos\":18,\"name\":\"CumConns\"},\"processNum\":1,\"tags\":{\"origin\":\"Metric\",\
\"nature\":\"Output\",\"scope\":\"Service\"},\"value\":{\"type\":\"u32\",\"value\":52}},\
{\"field\":{\"pos\":19,\"name\":\"CumReq\"},\"processNum\":1,\"tags\":{\"origin\":\"Metric\",\
\"nature\":\"Output\",\"scope\":\"Service\"},\"value\":{\"type\":\"u32\",\"value\":46}},\
{\"field\":{\"pos\":20,\"name\":\"MaxSslConns\"},\"processNum\":1,\
\"tags\":{\"origin\":\"Metric\",\"nature\":\"Output\",\"scope\":\"Service\"},\
\"value\":{\"type\":\"u32\",\"value\":0}},{\"field\":{\"pos\":21,\"name\":\"CurrSslConns\"},\
\"processNum\":1,\"tags\":{\"origin\":\"Metric\",\"nature\":\"Output\",\"scope\":\"Service\"},\
\"value\":{\"type\":\"u32\",\"value\":0}},{\"field\":{\"pos\":22,\"name\":\"CumSslConns\"},\
\"processNum\":1,\"tags\":{\"origin\":\"Metric\",\"nature\":\"Output\",\"scope\":\"Service\"},\
\"value\":{\"type\":\"u32\",\"value\":0}},{\"field\":{\"pos\":23,\"name\":\"Maxpipes\"},\
\"processNum\":1,\"tags\":{\"origin\":\"Metric\",\"nature\":\"Output\",\"scope\":\"Service\"},\
\"value\":{\"type\":\"u32\",\"value\":0}},{\"field\":{\"pos\":24,\"name\":\"PipesUsed\"},\
\"processNum\":1,\"tags\":{\"origin\":\"Metric\",\"nature\":\"Output\",\"scope\":\"Service\"},\
\"value\":{\"type\":\"u32\",\"value\":0}},{\"field\":{\"pos\":25,\"name\":\"PipesFree\"},\
\"processNum\":1,\"tags\":{\"origin\":\"Metric\",\"nature\":\"Output\",\"scope\":\"Service\"},\
\"value\":{\"type\":\"u32\",\"value\":0}},{\"field\":{\"pos\":26,\"name\":\"ConnRate\"},\
\"processNum\":1,\"tags\":{\"origin\":\"Metric\",\"nature\":\"Output\",\"scope\":\"Service\"},\
\"value\":{\"type\":\"u32\",\"value\":0}},{\"field\":{\"pos\":27,\"name\":\"ConnRateLimit\"},\
\"processNum\":1,\"tags\":{\"origin\":\"Metric\",\"nature\":\"Output\",\"scope\":\"Service\"},\
\"value\":{\"type\":\"u32\",\"value\":0}},{\"field\":{\"pos\":28,\"name\":\"MaxConnRate\"},\
\"processNum\":1,\"tags\":{\"origin\":\"Metric\",\"nature\":\"Output\",\"scope\":\"Service\"},\
\"value\":{\"type\":\"u32\",\"value\":2}},{\"field\":{\"pos\":29,\"name\":\"SessRate\"},\
\"processNum\":1,\"tags\":{\"origin\":\"Metric\",\"nature\":\"Output\",\"scope\":\"Service\"},\
\"value\":{\"type\":\"u32\",\"value\":0}},{\"field\":{\"pos\":30,\"name\":\"SessRateLimit\"},\
\"processNum\":1,\"tags\":{\"origin\":\"Metric\",\"nature\":\"Output\",\"scope\":\"Service\"},\
\"value\":{\"type\":\"u32\",\"value\":0}},{\"field\":{\"pos\":31,\"name\":\"MaxSessRate\"},\
\"processNum\":1,\"tags\":{\"origin\":\"Metric\",\"nature\":\"Output\",\"scope\":\"Service\"},\
\"value\":{\"type\":\"u32\",\"value\":2}},{\"field\":{\"pos\":32,\"name\":\"SslRate\"},\
\"processNum\":1,\"tags\":{\"origin\":\"Metric\",\"nature\":\"Output\",\"scope\":\"Service\"},\
\"value\":{\"type\":\"u32\",\"value\":0}},{\"field\":{\"pos\":33,\"name\":\"SslRateLimit\"},\
\"processNum\":1,\"tags\":{\"origin\":\"Metric\",\"nature\":\"Output\",\"scope\":\"Service\"},\
\"value\":{\"type\":\"u32\",\"value\":0}},{\"field\":{\"pos\":34,\"name\":\"MaxSslRate\"},\
\"processNum\":1,\"tags\":{\"origin\":\"Metric\",\"nature\":\"Output\",\"scope\":\"Service\"},\
\"value\":{\"type\":\"u32\",\"value\":0}},{\"field\":{\"pos\":35,\
\"name\":\"SslFrontendKeyRate\"},\"processNum\":1,\"tags\":{\"origin\":\"Metric\",\
\"nature\":\"Output\",\"scope\":\"Service\"},\"value\":{\"type\":\"u32\",\"value\":0}},\
{\"field\":{\"pos\":36,\"name\":\"SslFrontendMaxKeyRate\"},\"processNum\":1,\
\"tags\":{\"origin\":\"Metric\",\"nature\":\"Output\",\"scope\":\"Service\"},\
\"value\":{\"type\":\"u32\",\"value\":0}},{\"field\":{\"pos\":37,\
\"name\":\"SslFrontendSessionReuse_pct\"},\"processNum\":1,\"tags\":{\"origin\":\"Metric\",\
\"nature\":\"Output\",\"scope\":\"Service\"},\"value\":{\"type\":\"u32\",\"value\":0}},\
{\"field\":{\"pos\":38,\"name\":\"SslBackendKeyRate\"},\"processNum\":1,\
\"tags\":{\"origin\":\"Metric\",\"nature\":\"Output\",\"scope\":\"Service\"},\
\"value\":{\"type\":\"u32\",\"value\":0}},{\"field\":{\"pos\":39,\
\"name\":\"SslBackendMaxKeyRate\"},\"processNum\":1,\"tags\":{\"origin\":\"Metric\",\
\"nature\":\"Output\",\"scope\":\"Service\"},\"value\":{\"type\":\"u32\",\"value\":0}},\
{\"field\":{\"pos\":40,\"name\":\"SslCacheLookups\"},\"processNum\":1,\
\"tags\":{\"origin\":\"Metric\",\"nature\":\"Output\",\"scope\":\"Service\"},\
\"value\":{\"type\":\"u32\",\"value\":0}},{\"field\":{\"pos\":41,\"name\":\"SslCacheMisses\"},\
\"processNum\":1,\"tags\":{\"origin\":\"Metric\",\"nature\":\"Output\",\"scope\":\"Service\"},\
\"value\":{\"type\":\"u32\",\"value\":0}},{\"field\":{\"pos\":42,\"name\":\"CompressBpsIn\"},\
\"processNum\":1,\"tags\":{\"origin\":\"Metric\",\"nature\":\"Output\",\"scope\":\"Service\"},\
\"value\":{\"type\":\"u32\",\"value\":0}},{\"field\":{\"pos\":43,\"name\":\"CompressBpsOut\"},\
\"processNum\":1,\"tags\":{\"origin\":\"Metric\",\"nature\":\"Output\",\"scope\":\"Service\"},\
\"value\":{\"type\":\"u32\",\"value\":0}},{\"field\":{\"pos\":44,\
\"name\":\"CompressBpsRateLim\"},\"processNum\":1,\"tags\":{\"origin\":\"Metric\",\
\"nature\":\"Output\",\"scope\":\"Service\"},\"value\":{\"type\":\"u32\",\"value\":0}},\
{\"field\":{\"pos\":45,\"name\":\"Tasks\"},\"processNum\":1,\"tags\":{\"origin\":\"Metric\",\
\"nature\":\"Output\",\"scope\":\"Service\"},\"value\":{\"type\":\"u32\",\"value\":20}},\
{\"field\":{\"pos\":46,\"name\":\"Run_queue\"},\"processNum\":1,\"tags\":{\"origin\":\"Metric\",\
\"nature\":\"Output\",\"scope\":\"Service\"},\"value\":{\"type\":\"u32\",\"value\":0}},\
{\"field\":{\"pos\":47,\"name\":\"Idle_pct\"},\"processNum\":1,\"tags\":{\"origin\":\"Metric\",\
\"nature\":\"Output\",\"scope\":\"Service\"},\"value\":{\"type\":\"u32\",\"value\":100}},\
{\"field\":{\"pos\":48,\"name\":\"node\"},\"processNum\":1,\"tags\":{\"origin\":\"Product\",\
\"nature\":\"Output\",\"scope\":\"Service\"},\"value\":{\"type\":\"str\",\
\"value\":\"d3a1f0c2b7e4\"}},{\"field\":{\"pos\":49,\"name\":\"Stopping\"},\"processNum\":1,\
\"tags\":{\"origin\":\"Metric\",\"nature\":\"Output\",\"scope\":\"Service\"},\
\"value\":{\"type\":\"u32\",\"value\":0}},{\"field\":{\"pos\":50,\"name\":\"Jobs\"},\
\"processNum\":1,\"tags\":{\"origin\":\"Metric\",\"nature\":\"Output\",\"scope\":\"Service\"},\
\"value\":{\"type\":\"u32\",\"value\":9}},{\"field\":{\"pos\":51,\"name\":\"Unstoppable Jobs\"},\
\"processNum\":1,\"tags\":{\"origin\":\"Metric\",\"nature\":\"Output\",\"scope\":\"Service\"},\
\"value\":{\"type\":\"u32\",\"value\":1}},{\"field\":{\"pos\":52,\"name\":\"Listeners\"},\
\"processNum\":1,\"tags\":{\"origin\":\"Metric\",\"nature\":\"Output\",\"scope\":\"Service\"},\
\"value\":{\"type\":\"u32\",\"value\":8}},{\"field\":{\"pos\":53,\"name\":\"ActivePeers\"},\
\"processNum\":1,\"tags\":{\"origin\":\"Metric\",\"nature\":\"Output\",\"scope\":\"Service\"},\
\"value\":{\"type\":\"u32\",\"value\":0}},{\"field\":{\"pos\":54,\"name\":\"ConnectedPeers\"},\
\"processNum\":1,\"tags\":{\"origin\":\"Metric\",\"nature\":\"Output\",\"scope\":\"Service\"},\
\"value\":{\"type\":\"u32\",\"value\":0}},{\"field\":{\"pos\":55,\"name\":\"DroppedLogs\"},\
\"processNum\":1,\"tags\":{\"origin\":\"Metric\",\"nature\":\"Output\",\"scope\":\"Service\"},\
\"value\":{\"type\":\"u32\",\"value\":0}},{\"field\":{\"pos\":56,\"name\":\"BusyPolling\"},\
\"processNum\":1,\"tags\":{\"origin\":\"Metric\",\"nature\":\"Output\",\"scope\":\"Service\"},\
\"value\":{\"type\":\"u32\",\"value\":0}},{\"field\":{\"pos\":57,\
\"name\":\"FailedResolutions\"},\"processNum\":1,\"tags\":{\"origin\":\"Metric\",\
\"nature\":\"Output\",\"scope\":\"Service\"},\"value\":{\"type\":\"u32\",\"value\":0}},\
{\"field\":{\"pos\":58,\"name\":\"TotalBytesOut\"},\"processNum\":1,\
\"tags\":{\"origin\":\"Metric\",\"nature\":\"Output\",\"scope\":\"Service\"},\
\"value\":{\"type\":\"u64\",\"value\":58966}},{\"field\":{\"pos\":59,\
\"name\":\"TotalSplicdedBytesOut\"},\"processNum\":1,\"tags\":{\"origin\":\"Metric\",\
\"nature\":\"Output\",\"scope\":\"Service\"},\"value\":{\"type\":\"u64\",\"value\":0}},\
{\"field\":{\"pos\":60,\"name\":\"BytesOutRate\"},\"processNum\":1,\
\"tags\":{\"origin\":\"Metric\",\"nature\":\"Output\",\"scope\":\"Service\"},\
\"value\":{\"type\":\"u64\",\"value\":0}},{\"field\":{\"pos\":61,\
\"name\":\"DebugCommandsIssued\"},\"processNum\":1,\"tags\":{\"origin\":\"Metric\",\
\"nature\":\"Output\",\"scope\":\"Service\"},\"value\":{\"type\":\"u32\",\"value\":0}},\
{\"field\":{\"pos\":62,\"name\":\"CumRecvLogs\"},\"processNum\":1,\
\"tags\":{\"origin\":\"Metric\",\"nature\":\"Output\",\"scope\":\"Service\"},\
\"value\":{\"type\":\"u32\",\"value\":0}},{\"field\":{\"pos\":63,\"name\":\"Build info\"},\
\"processNum\":1,\"tags\":{\"origin\":\"Product\",\"nature\":\"Output\",\"scope\":\"Service\"},\
\"value\":{\"type\":\"str\",\"value\":\"2.5.5-384c5c5\"}},{\"field\":{\"pos\":64,\
\"name\":\"Memmax_bytes\"},\"processNum\":1,\"tags\":{\"origin\":\"Metric\",\
\"nature\":\"Output\",\"scope\":\"Service\"},\"value\":{\"type\":\"u32\",\"value\":0}},\
{\"field\":{\"pos\":65,\"name\":\"PoolAlloc_bytes\"},\"processNum\":1,\
\"tags\":{\"origin\":\"Metric\",\"nature\":\"Output\",\"scope\":\"Service\"},\
\"value\":{\"type\":\"u32\",\"value\":398016}},{\"field\":{\"pos\":66,\
\"name\":\"PoolUsed_bytes\"},\"processNum\":1,\"tags\":{\"origin\":\"Metric\",\
\"nature\":\"Output\",\"scope\":\"Service\"},\"value\":{\"type\":\"u32\",\"value\":398016}},\
{\"field\":{\"pos\":67,\"name\":\"Start_time_sec\"},\"processNum\":1,\
\"tags\":{\"origin\":\"Metric\",\"nature\":\"Output\",\"scope\":\"Service\"},\
\"value\":{\"type\":\"u32\",\"value\":1647250203}},{\"field\":{\"pos\":68,\"name\":\"Tainted\"},\
\"processNum\":1,\"tags\":{\"origin\":\"Metric\",\"nature\":\"Output\",\"scope\":\"Service\"},\
\"value\":{\"type\":\"u32\",\"value\":0}}]";

const SHORT_INFO: &str = "Name: HAProxy\nVersion: 2.5.5\nRelease_date: 2022/01/14\nNbproc: 1\n\
Process_num: 2\nPid: 3\nUptime: 1d 2h03m04s\nUptime_sec: 93784\n";

fn info_entry(name: &str, kind: &str, value: &str) -> String {
    format!(
        "{{\"field\":{{\"pos\":0,\"name\":\"{}\"}},\"processNum\":1,\
         \"tags\":{{\"origin\":\"Product\",\"nature\":\"Output\",\"scope\":\"Service\"}},\
         \"value\":{{\"type\":\"{}\",\"value\":{}}}}}",
        name, kind, value
    )
}

fn short_json(release_date: &str) -> String {
    format!(
        "[{},{},{},{},{},{},{},{}]",
        info_entry("Name", "str", "\"HAProxy\""),
        info_entry("Version", "str", "\"2.5.5\""),
        info_entry("Release_date", "str", release_date),
        info_entry("Nbproc", "u32", "1"),
        info_entry("Process_num", "u32", "2"),
        info_entry("Pid", "u32", "3"),
        info_entry("Uptime", "str", "\"1d 2h03m04s\""),
        info_entry("Uptime_sec", "u32", "93784"),
    )
}

fn expected() -> Info {
    Info {
        name: "HAProxy".to_string(),
        version: Version {
            major: 2,
            minor: 5,
            patch: 5,
            pre: "384c5c5".to_string(),
            build: String::new(),
        },
        release_date: Date { year: 2022, month: 3, day: 14 },
        nbproc: 1,
        process_num: 1,
        pid: 8,
        uptime: Span { secs: 208, nanos: 0 },
        uptime_sec: 208,
    }
}

#[test]
fn test_info_from_json_bytes() {
    let bytes = SHOW_INFO_JSON.as_bytes();

    let info = Info::from_json_bytes(bytes).unwrap();

    println!("{:?}", info);

    assert_eq!(info.name, "HAProxy".to_string());
}

#[test]
fn info_test_info_from_kv_bytes() {
    let bytes = SHOW_INFO_TXT.as_bytes();

    let info = Info::from_kv_bytes(bytes).unwrap();

    assert_eq!(info.name, "HAProxy".to_string());
}

#[test]
fn info_forms_give_the_same_record() {
    let kv = Info::from_kv_bytes(SHOW_INFO_TXT.as_bytes()).unwrap();
    let json = Info::from_json_bytes(SHOW_INFO_JSON.as_bytes()).unwrap();
    assert_eq!(kv, expected());
    assert_eq!(json, expected());
}

#[test]
fn info_release_date_is_read_with_slashes() {
    let info = Info::from_kv_bytes(SHORT_INFO.as_bytes()).unwrap();
    assert_eq!(info.release_date, Date { year: 2022, month: 1, day: 14 });
    assert_eq!(
        info.version,
        Version { major: 2, minor: 5, patch: 5, pre: String::new(), build: String::new() }
    );
    assert_eq!(info.nbproc, 1);
    assert_eq!(info.process_num, 2);
    assert_eq!(info.pid, 3);
    assert_eq!(info.uptime, Span { secs: 93784, nanos: 0 });
    assert_eq!(info.uptime_sec, 93784);

    // dashes are a date already
    let dashed = SHORT_INFO.replace("2022/01/14", "2022-01-14");
    assert_eq!(Info::from_kv_bytes(dashed.as_bytes()).unwrap(), info);

    let json = Info::from_json_bytes(short_json("\"2022/01/14\"").as_bytes()).unwrap();
    assert_eq!(json, info);
}

#[test]
fn info_lines_may_end_with_carriage_returns() {
    let crlf = SHORT_INFO.replace('\n', "\r\n");
    assert_eq!(
        Info::from_kv_bytes(crlf.as_bytes()).unwrap(),
        Info::from_kv_bytes(SHORT_INFO.as_bytes()).unwrap()
    );
    let unterminated = &SHORT_INFO[..SHORT_INFO.len() - 1];
    assert_eq!(
        Info::from_kv_bytes(unterminated.as_bytes()).unwrap(),
        Info::from_kv_bytes(SHORT_INFO.as_bytes()).unwrap()
    );
}

#[test]
fn info_value_goes_on_after_a_second_separator() {
    let input = SHORT_INFO.replace("Name: HAProxy", "Name: HA: Proxy");
    assert_eq!(Info::from_kv_bytes(input.as_bytes()).unwrap().name, "HA: Proxy");
}

#[test]
fn info_that_is_not_utf8_is_refused() {
    let mut bytes = b"Name: HAProxy\nVersion: \xff\n".to_vec();
    bytes.extend_from_slice(SHORT_INFO.as_bytes());
    assert_eq!(
        Info::from_kv_bytes(&bytes),
        Err(InfoFromKvBytesError::LinesReadFailed(1))
    );
}

#[test]
fn info_with_a_field_that_cannot_be_bound_is_refused() {
    let missing = SHORT_INFO.replace("Pid: 3\n", "");
    match Info::from_kv_bytes(missing.as_bytes()) {
        Err(InfoFromKvBytesError::ValueDeFailed(InfoValueError::Field(e))) => {
            assert_eq!(e.field, "Pid");
            assert_eq!(e.index, 5);
            assert_eq!(e.fault, Fault::Missing);
        }
        other => panic!("{:?}", other),
    }
    let invalid = SHORT_INFO.replace("Pid: 3", "Pid: three");
    match Info::from_kv_bytes(invalid.as_bytes()) {
        Err(InfoFromKvBytesError::ValueDeFailed(InfoValueError::Field(e))) => {
            assert_eq!(e.field, "Pid");
            assert_eq!(e.fault, Fault::Invalid);
        }
        other => panic!("{:?}", other),
    }
    let repeated = format!("{}Name: Other\n", SHORT_INFO);
    match Info::from_kv_bytes(repeated.as_bytes()) {
        Err(InfoFromKvBytesError::ValueDeFailed(InfoValueError::Field(e))) => {
            assert_eq!(e.field, "Name");
            assert_eq!(e.fault, Fault::Repeated);
        }
        other => panic!("{:?}", other),
    }
    assert!(matches!(
        Info::from_kv_bytes(b""),
        Err(InfoFromKvBytesError::ValueDeFailed(InfoValueError::Field(_)))
    ));
}

#[test]
fn info_with_a_value_that_cannot_be_read_is_refused() {
    let version = SHORT_INFO.replace("Version: 2.5.5", "Version: 2.5");
    assert_eq!(
        Info::from_kv_bytes(version.as_bytes()),
        Err(InfoFromKvBytesError::ValueDeFailed(InfoValueError::Version("2.5".to_string())))
    );
    let date = SHORT_INFO.replace("2022/01/14", "2022/13/14");
    assert_eq!(
        Info::from_kv_bytes(date.as_bytes()),
        Err(InfoFromKvBytesError::ValueDeFailed(InfoValueError::ReleaseDate(
            "2022-13-14".to_string()
        )))
    );
    // only the first three slashes become dashes
    let date = SHORT_INFO.replace("2022/01/14", "2022/01/14/");
    assert_eq!(
        Info::from_kv_bytes(date.as_bytes()),
        Err(InfoFromKvBytesError::ValueDeFailed(InfoValueError::ReleaseDate(
            "2022-01-14-".to_string()
        )))
    );
    let date = SHORT_INFO.replace("2022/01/14", "2022/01/14//");
    assert_eq!(
        Info::from_kv_bytes(date.as_bytes()),
        Err(InfoFromKvBytesError::ValueDeFailed(InfoValueError::ReleaseDate(
            "2022-01-14-/".to_string()
        )))
    );
    let uptime = SHORT_INFO.replace("1d 2h03m04s", "soon");
    assert_eq!(
        Info::from_kv_bytes(uptime.as_bytes()),
        Err(InfoFromKvBytesError::ValueDeFailed(InfoValueError::Uptime("soon".to_string())))
    );
    // the version is looked at before the date, the date before the uptime
    let all = SHORT_INFO
        .replace("Version: 2.5.5", "Version: x")
        .replace("2022/01/14", "never")
        .replace("1d 2h03m04s", "soon");
    assert_eq!(
        Info::from_kv_bytes(all.as_bytes()),
        Err(InfoFromKvBytesError::ValueDeFailed(InfoValueError::Version("x".to_string())))
    );
}

#[test]
fn info_json_that_is_no_field_list_is_refused() {
    assert!(matches!(
        Info::from_json_bytes(b"[{]"),
        Err(InfoFromJsonBytesError::DeOutputFailed(EnvelopeError::Syntax(_)))
    ));
    for input in ["{}", "[[]]", "[1]", "[{\"field\":{\"pos\":0,\"name\":\"Name\"}}]"] {
        assert!(
            matches!(
                Info::from_json_bytes(input.as_bytes()),
                Err(InfoFromJsonBytesError::DeOutputFailed(EnvelopeError::Shape))
            ),
            "{:?}",
            input
        );
    }
    match Info::from_json_bytes(b"[]") {
        Err(InfoFromJsonBytesError::DeFailed(InfoValueError::Field(e))) => {
            assert_eq!(e.field, "Name");
            assert_eq!(e.fault, Fault::Missing);
        }
        other => panic!("{:?}", other),
    }
}

#[test]
fn info_json_values_are_read_by_their_type() {
    // a release date that is no text reads as the empty text
    match Info::from_json_bytes(short_json("20220114").replace("\"type\":\"str\",\"value\":20220114", "\"type\":\"u32\",\"value\":20220114").as_bytes()) {
        Err(InfoFromJsonBytesError::DeFailed(InfoValueError::ReleaseDate(text))) => {
            assert_eq!(text, "")
        }
        other => panic!("{:?}", other),
    }
    // a counter may come as text, a text may not come as a number
    let text_pid = short_json("\"2022/01/14\"")
        .replace("\"type\":\"u32\",\"value\":3", "\"type\":\"str\",\"value\":\"3\"");
    assert_eq!(Info::from_json_bytes(text_pid.as_bytes()).unwrap().pid, 3);
    let number_name = short_json("\"2022/01/14\"")
        .replace("\"type\":\"str\",\"value\":\"HAProxy\"", "\"type\":\"u32\",\"value\":1");
    match Info::from_json_bytes(number_name.as_bytes()) {
        Err(InfoFromJsonBytesError::DeFailed(InfoValueError::Field(e))) => {
            assert_eq!(e.field, "Name");
            assert_eq!(e.fault, Fault::Invalid);
        }
        other => panic!("{:?}", other),
    }
    // the later of two entries with one name decides
    let doubled = format!(
        "{},{}]",
        &short_json("\"2022/01/14\"")[..short_json("\"2022/01/14\"").len() - 1],
        info_entry("Pid", "u32", "99")
    );
    assert_eq!(Info::from_json_bytes(doubled.as_bytes()).unwrap().pid, 99);
}

#[test]
fn info_is_put_together_from_what_was_read() {
    let raw = RawInfo {
        name: "HAProxy".to_string(),
        version: "two".to_string(),
        release_date: "yesterday".to_string(),
        nbproc: 1,
        process_num: 2,
        pid: 3,
        uptime: "long".to_string(),
        uptime_sec: 4,
    };
    let version =
        Version { major: 2, minor: 0, patch: 1, pre: String::new(), build: "b7".to_string() };
    let date = Date { year: 2020, month: 2, day: 29 };
    let span = Span { secs: 61, nanos: 5 };
    assert_eq!(
        Info::assemble(raw.clone(), Some(version.clone()), Some(date), Some(span)),
        Ok(Info {
            name: "HAProxy".to_string(),
            version: version.clone(),
            release_date: date,
            nbproc: 1,
            process_num: 2,
            pid: 3,
            uptime: span,
            uptime_sec: 4,
        })
    );
    assert_eq!(
        Info::assemble(raw.clone(), None, None, None),
        Err(InfoValueError::Version("two".to_string()))
    );
    assert_eq!(
        Info::assemble(raw.clone(), Some(version.clone()), None, None),
        Err(InfoValueError::ReleaseDate("yesterday".to_string()))
    );
    assert_eq!(
        Info::assemble(raw.clone(), Some(version.clone()), Some(date), None),
        Err(InfoValueError::Uptime("long".to_string()))
    );
    assert_eq!(
        Info::assemble(raw, None, Some(date), Some(span)),
        Err(InfoValueError::Version("two".to_string()))
    );
}

#[test]
fn info_fields_are_bound_before_they_are_read() {
    let text = |name: &str, value: &str| Attribute {
        name: name.to_string(),
        value: Value::Str(value.to_string()),
    };
    let attrs = vec![
        text("Uptime_sec", "4"),
        text("Uptime", "long"),
        text("Pid", "0x3"),
        Attribute { name: "Process_num".to_string(), value: Value::U32(2) },
        text("Nbproc", "1"),
        text("Release_date", "yesterday"),
        text("Version", "two"),
        text("Name", "HAProxy"),
        text("Unknown", "ignored"),
    ];
    assert_eq!(
        RawInfo::bind(&attrs),
        Ok(RawInfo {
            name: "HAProxy".to_string(),
            version: "two".to_string(),
            release_date: "yesterday".to_string(),
            nbproc: 1,
            process_num: 2,
            pid: 3,
            uptime: "long".to_string(),
            uptime_sec: 4,
        })
    );
    assert_eq!(
        Info::from_attributes(&attrs),
        Err(InfoValueError::Version("two".to_string()))
    );
    assert_eq!(Info::schema().len(), 8);
    let lines = vec!["Name: HAProxy".to_string(), "Release_date: 1/2/3/4/5".to_string()];
    assert_eq!(
        Info::attributes_of_lines(&lines),
        vec![text("Name", "HAProxy"), text("Release_date", "1-2-3-4/5")]
    );
}

#[test]
fn info_json_tree_decodes_without_the_reader() {
    assert!(matches!(
        Info::from_json_tree(&Json::Null),
        Err(InfoFromJsonBytesError::DeOutputFailed(EnvelopeError::Shape))
    ));
    assert!(matches!(
        Info::from_json_tree(&Json::List(Vec::new())),
        Err(InfoFromJsonBytesError::DeFailed(InfoValueError::Field(_)))
    ));
    let output = JsonOutput::from_tree(&Json::List(Vec::new())).unwrap();
    assert!(output.0.is_empty());
    assert!(output.attributes().is_empty());
}
