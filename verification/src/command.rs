//! Commands of the stats socket and their wire encoding.
//!
//! A command is a line of text. Several commands may share one line, joined
//! by `;`, so a `;` that belongs to a command's own text has to be escaped
//! with a backslash.

use crate::text::to_chars;
use vstd::prelude::*;
use vstd::string::*;
use vstd::utf8::*;

verus! {

/// Separates the commands of a batch.
pub const SEMI_COLON: char = ';';

/// Escapes a separator inside a command.
pub const BACKSLASH: char = '\\';

/// Whether position `i` of `s` holds a separator that no backslash precedes.
pub open spec fn unescaped_separator_at(s: Seq<char>, i: int) -> bool {
    &&& 0 <= i < s.len()
    &&& s[i] == ';'
    &&& (i == 0 || s[i - 1] != '\\')
}

/// Whether every separator in `s` is preceded by a backslash.
pub open spec fn well_escaped(s: Seq<char>) -> bool {
    forall|i: int| 0 <= i < s.len() ==> !#[trigger] unescaped_separator_at(s, i)
}

/// The bytes that end a line on the wire.
pub open spec fn line_end() -> Seq<u8> {
    seq![13u8, 10u8]
}

/// The bytes sent for a command with text `s`.
pub open spec fn command_wire(s: Seq<char>) -> Seq<u8> {
    encode_utf8(s) + line_end()
}

/// The text that a line of wire bytes carries: the bytes before the line end,
/// decoded.
pub open spec fn wire_text(bytes: Seq<u8>) -> Seq<char> {
    decode_utf8(bytes.take(bytes.len() - 2))
}

/// The texts `parts` joined by the separator.
pub open spec fn joined(parts: Seq<Seq<char>>) -> Seq<char>
    decreases parts.len(),
{
    if parts.len() == 0 {
        Seq::empty()
    } else if parts.len() == 1 {
        parts[0]
    } else {
        joined(parts.drop_last()) + seq![';'] + parts.last()
    }
}

/// The bytes sent for a batch of commands with texts `parts`.
pub open spec fn batch_wire(parts: Seq<Seq<char>>) -> Seq<u8> {
    encode_utf8(joined(parts)) + line_end()
}

/// Why a text is no command.
#[derive(Debug, Clone, Copy, PartialEq, Eq)]
pub enum CommandParseError {
    /// The text holds a `;` without a backslash before it.
    RequireEscapeSemiColon,
}

impl CommandParseError {
    /// The name of the error.
    pub fn to_string(&self) -> (r: String)
        ensures
            r@ == "RequireEscapeSemiColon"@,
    {
        "RequireEscapeSemiColon".to_owned()
    }
}

/// A validated command: in its text every `;` is escaped.
#[derive(Debug)]
pub struct Command {
    inner: String,
}

impl View for Command {
    type V = Seq<char>;

    closed spec fn view(&self) -> Seq<char> {
        self.inner@
    }
}

impl Command {
    /// Every separator in the text follows a backslash.
    #[verifier::type_invariant]
    spec fn escaped(&self) -> bool {
        well_escaped(self.inner@)
    }

    /// Validates `command`. It is accepted, unchanged, exactly when each of
    /// its separators directly follows a backslash.
    pub fn new(command: &str) -> (r: Result<Self, CommandParseError>)
        ensures
            well_escaped(command@) <==> r is Ok,
            r matches Ok(c) ==> c@ == command@,
            r matches Err(e) ==> e is RequireEscapeSemiColon,
    {
        let v = to_chars(command);
        let mut i: usize = 0;
        while i < v.len()
            invariant
                i <= v@.len(),
                v@ == command@,
                forall|j: int| 0 <= j < i ==> !#[trigger] unescaped_separator_at(v@, j),
            decreases v.len() - i,
        {
            if v[i] == SEMI_COLON && (i == 0 || v[i - 1] != BACKSLASH) {
                proof {
                    assert(unescaped_separator_at(v@, i as int));
                }
                return Err(CommandParseError::RequireEscapeSemiColon);
            }
            i += 1;
        }
        Ok(Command { inner: command.to_owned() })
    }

    /// The text of the command.
    pub fn as_str(&self) -> (r: &str)
        ensures
            r@ == self@,
            well_escaped(r@),
    {
        proof {
            use_type_invariant(self);
        }
        self.inner.as_str()
    }

    /// The text of the command, owned.
    pub fn to_string(&self) -> (r: String)
        ensures
            r@ == self@,
    {
        self.inner.clone()
    }

    /// The bytes to send: the text, then `\r\n`.
    pub fn to_write_bytes(&self) -> (r: Vec<u8>)
        ensures
            r@ == command_wire(self@),
    {
        let mut out = self.inner.as_str().as_bytes_vec();
        let ghost body = out@;
        out.push(13u8);
        out.push(10u8);
        proof {
            assert(out@ =~= body + line_end());
        }
        out
    }

    /// The command `show info`.
    pub fn show_info() -> (r: Self)
        ensures
            r@ == "show info"@,
    {
        proof {
            reveal_strlit("show info");
        }
        Command { inner: "show info".to_owned() }
    }

    /// The command `show stat`.
    pub fn show_stat() -> (r: Self)
        ensures
            r@ == "show stat"@,
    {
        proof {
            reveal_strlit("show stat");
        }
        Command { inner: "show stat".to_owned() }
    }

    /// The command `show env`.
    pub fn show_env() -> (r: Self)
        ensures
            r@ == "show env"@,
    {
        proof {
            reveal_strlit("show env");
        }
        Command { inner: "show env".to_owned() }
    }
}

impl Clone for Command {
    fn clone(&self) -> (r: Self)
        ensures
            r@ == self@,
    {
        proof {
            use_type_invariant(self);
        }
        Command { inner: self.inner.clone() }
    }
}

impl core::str::FromStr for Command {
    type Err = CommandParseError;

    fn from_str(s: &str) -> (r: Result<Self, CommandParseError>)
        ensures
            well_escaped(s@) <==> r is Ok,
            r matches Ok(c) ==> c@ == s@,
    {
        Command::new(s)
    }
}

/// A batch of commands, sent on one line.
#[derive(Debug, Clone)]
pub struct Commands<'a>(pub &'a [Command]);

impl<'a> View for Commands<'a> {
    type V = Seq<Seq<char>>;

    open spec fn view(&self) -> Seq<Seq<char>> {
        Seq::new(self.0@.len(), |i: int| self.0@[i]@)
    }
}

impl<'a> Commands<'a> {
    /// The batch of the commands `inner`, in their order.
    pub fn new(inner: &'a [Command]) -> (r: Self)
        ensures
            r.0@ == inner@,
    {
        Commands(inner)
    }

    /// The texts of the commands, joined by `;`.
    pub fn internal_to_string(&self) -> (r: String)
        ensures
            r@ == joined(self@),
    {
        let mut out = String::new();
        let mut i: usize = 0;
        while i < self.0.len()
            invariant
                i <= self.0@.len(),
                out@ == joined(self@.take(i as int)),
            decreases self.0.len() - i,
        {
            let ghost before = out@;
            if i > 0 {
                out.push(SEMI_COLON);
            }
            out.append(self.0[i].as_str());
            proof {
                let parts = self@.take(i + 1);
                assert(parts.drop_last() =~= self@.take(i as int));
                assert(parts.last() == self.0@[i as int]@);
                if i == 0 {
                    assert(out@ =~= parts[0]);
                }
            }
            i += 1;
        }
        proof {
            assert(self@.take(self.0@.len() as int) =~= self@);
        }
        out
    }

    /// The texts of the commands, joined by `;`.
    pub fn to_string(&self) -> (r: String)
        ensures
            r@ == joined(self@),
    {
        self.internal_to_string()
    }

    /// The bytes to send: the commands joined by `;`, then `\r\n`.
    pub fn to_write_bytes(&self) -> (r: Vec<u8>)
        ensures
            r@ == batch_wire(self@),
    {
        let line = self.internal_to_string();
        let mut out = line.as_str().as_bytes_vec();
        let ghost body = out@;
        out.push(13u8);
        out.push(10u8);
        proof {
            assert(out@ =~= body + line_end());
        }
        out
    }
}

/// The encoding of a text made of two parts is the encoding of the first part
/// followed by that of the second.
pub proof fn lemma_encode_concat(a: Seq<char>, b: Seq<char>)
    ensures
        encode_utf8(a + b) == encode_utf8(a) + encode_utf8(b),
    decreases a.len(),
{
    if a.len() == 0 {
        assert(a + b =~= b);
        assert(encode_utf8(a) + encode_utf8(b) =~= encode_utf8(b));
    } else {
        lemma_encode_concat(a.drop_first(), b);
        assert((a + b).drop_first() =~= a.drop_first() + b);
        assert((a + b)[0] == a[0]);
        assert(encode_utf8(a + b) =~= encode_utf8(a) + encode_utf8(b));
    }
}

/// A text with an unescaped separator anywhere in it, at the start, in the
/// middle or at the end, is not well escaped.
pub proof fn lemma_unescaped_separator_rejected(s: Seq<char>, i: int)
    requires
        unescaped_separator_at(s, i),
    ensures
        !well_escaped(s),
{
}

/// A batch of two commands is sent as the first command's text, the
/// separator, the second command's text, and the line end.
pub proof fn lemma_batch_of_two(a: Seq<char>, b: Seq<char>)
    ensures
        joined(seq![a, b]) == a + seq![';'] + b,
        batch_wire(seq![a, b]) == encode_utf8(a) + seq![59u8] + encode_utf8(b) + line_end(),
{
    let parts = seq![a, b];
    assert(parts.drop_last() =~= seq![a]);
    assert(joined(seq![a]) == a);
    assert(joined(parts) == a + seq![';'] + b);
    lemma_encode_concat(a + seq![';'], b);
    lemma_encode_concat(a, seq![';']);
    assert(encode_utf8(seq![';']) =~= seq![59u8]) by {
        let one = seq![';'];
        assert(one.drop_first() =~= Seq::<char>::empty());
        assert(encode_utf8(one.drop_first()) =~= Seq::<u8>::empty());
        assert(';' as u32 == 59u32);
        assert(encode_scalar(59u32) =~= seq![59u8]) by {
            assert(has_width_1_encoding(59u32));
            assert(leading_byte_width_1(59u32) == 59u8) by (bit_vector);
        }
    }
}

/// A batch of one command is sent exactly as that command alone.
pub proof fn lemma_batch_of_one(a: Seq<char>)
    ensures
        batch_wire(seq![a]) == command_wire(a),
{
}

/// The wire bytes of a command carry its text: reading the text back from
/// the bytes and encoding it again gives the same bytes, and the text read
/// back is accepted as a command whenever the text sent was.
pub proof fn lemma_wire_round_trip(s: Seq<char>)
    ensures
        wire_text(command_wire(s)) == s,
        command_wire(wire_text(command_wire(s))) == command_wire(s),
        well_escaped(s) ==> well_escaped(wire_text(command_wire(s))),
{
    let bytes = command_wire(s);
    assert(bytes.take(bytes.len() - 2) =~= encode_utf8(s));
    encode_utf8_decode_utf8(s);
}

} // verus!
