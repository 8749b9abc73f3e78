//! What the server says of itself when it starts.

use vstd::prelude::*;
use vstd::string::*;
use vstd::utf8::*;

use crate::config::{Config, ConfigView};
use crate::text;
use crate::text::{decimal_text, joined};

verus! {

/// `n` stars.
pub open spec fn stars(n: nat) -> Seq<char> {
    Seq::new(n, |i: int| '*')
}

/// The key can be masked: where it has five bytes or more, its first three and
/// its last two are whole characters.
pub open spec fn maskable(key: Seq<char>) -> bool {
    let bytes = encode_utf8(key);
    bytes.len() >= 5 ==> is_char_boundary(bytes, 3) && is_char_boundary(
        bytes,
        bytes.len() - 2,
    )
}

/// What is shown of a key: stars alone where it has fewer than five bytes, and
/// otherwise its first three bytes and its last two with stars between.
pub open spec fn masked(key: Seq<char>) -> Seq<char> {
    let bytes = encode_utf8(key);
    if bytes.len() < 5 {
        stars(16)
    } else {
        decode_utf8(bytes.take(3)) + stars(11) + decode_utf8(bytes.skip(bytes.len() - 2))
    }
}

/// Text one after the other is encoded one after the other.
pub proof fn lemma_encode_concat(a: Seq<char>, b: Seq<char>)
    ensures
        encode_utf8(a + b) == encode_utf8(a) + encode_utf8(b),
    decreases a.len(),
{
    if a.len() == 0 {
        assert(a + b =~= b);
        assert(encode_utf8(a) + encode_utf8(b) =~= encode_utf8(b));
    } else {
        lemma_encode_concat(a.drop_first(), b);
        assert((a + b).drop_first() =~= a.drop_first() + b);
        assert(encode_utf8(a + b) =~= encode_utf8(a) + encode_utf8(b));
    }
}

/// Whatever the key, sixteen bytes are shown.
pub proof fn law_masked_length(key: Seq<char>)
    requires
        maskable(key),
    ensures
        encode_utf8(masked(key)).len() == 16,
{
    let bytes = encode_utf8(key);
    is_ascii_chars_encode_utf8(stars(16));
    is_ascii_chars_encode_utf8(stars(11));
    if bytes.len() >= 5 {
        let head = bytes.take(3);
        let tail = bytes.skip(bytes.len() - 2);
        encode_utf8_valid_utf8(key);
        valid_utf8_split(bytes, 3);
        valid_utf8_split(bytes, bytes.len() - 2);
        assert(head =~= bytes.subrange(0, 3));
        assert(tail =~= bytes.subrange(bytes.len() - 2, bytes.len() as int));
        decode_utf8_encode_utf8(head);
        decode_utf8_encode_utf8(tail);
        lemma_encode_concat(decode_utf8(head), stars(11));
        lemma_encode_concat(decode_utf8(head) + stars(11), decode_utf8(tail));
    }
}

/// Keys of five bytes or more that begin with the same three bytes and end with
/// the same two are shown alike, whatever stands between and however much of it,
/// and all shorter keys are shown alike.
pub proof fn law_masked_hides(a: Seq<char>, b: Seq<char>)
    requires
        maskable(a),
        maskable(b),
        (encode_utf8(a).len() < 5 && encode_utf8(b).len() < 5) || (encode_utf8(a).len() >= 5
            && encode_utf8(b).len() >= 5 && encode_utf8(a).take(3) == encode_utf8(b).take(3)
            && encode_utf8(a).skip(encode_utf8(a).len() - 2) == encode_utf8(b).skip(
            encode_utf8(b).len() - 2,
        )),
    ensures
        masked(a) == masked(b),
{
}

/// What is shown of a key.
pub fn mask_key(key: &str) -> (r: String)
    requires
        maskable(key@),
    ensures
        r@ == masked(key@),
{
    let n: usize = key.as_bytes().len();
    proof {
        reveal_strlit("****************");
        reveal_strlit("***********");
        assert("****************"@ =~= stars(16));
        assert("***********"@ =~= stars(11));
    }
    if n < 5 {
        "****************".to_owned()
    } else {
        let head = key.split_at(3).0;
        let tail = key.split_at(n - 2).1;
        proof {
            let bytes = encode_utf8(key@);
            encode_utf8_decode_utf8(head@);
            encode_utf8_decode_utf8(tail@);
            assert(bytes.take(3) =~= bytes.subrange(0, 3));
            assert(bytes.skip(n - 2) =~= bytes.subrange(n - 2, n as int));
        }
        let shown = joined(head, "***********");
        joined(shown.as_str(), tail)
    }
}

impl ConfigView {
    /// The address that the server listens on.
    pub open spec fn address(self) -> Seq<char> {
        (match self.host {
            Some(h) => h,
            None => "localhost"@,
        }) + ":"@ + text::decimal(
            (match self.port {
                Some(p) => p,
                None => 3000u16,
            }) as nat,
        )
    }
}

impl Config {
    /// The address that the server listens on.
    pub fn listen_address(&self) -> (r: String)
        ensures
            r@ == self@.address(),
    {
        let host = joined(self.get_host().as_str(), ":");
        joined(host.as_str(), decimal_text(self.get_port()).as_str())
    }
}

/// How much is logged.
#[derive(Debug, Clone, Copy, PartialEq, Eq, Structural)]
pub enum LogLevel {
    Info,
    Debug,
    Trace,
}

/// How much is logged when more was asked for `verbose` times.
pub open spec fn level(verbose: u8) -> LogLevel {
    if verbose == 0 {
        LogLevel::Info
    } else if verbose == 1 {
        LogLevel::Debug
    } else {
        LogLevel::Trace
    }
}

/// How much is logged when more was asked for `verbose` times.
pub fn log_level(verbose: u8) -> (r: LogLevel)
    ensures
        r == level(verbose),
        verbose == 0 ==> r == LogLevel::Info,
        verbose == 1 ==> r == LogLevel::Debug,
        verbose >= 2 ==> r == LogLevel::Trace,
{
    match verbose {
        0 => LogLevel::Info,
        1 => LogLevel::Debug,
        _ => LogLevel::Trace,
    }
}

} // verus!
