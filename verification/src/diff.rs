//! Comparing contents byte by byte, and dumping both sides where they
//! differ.

use vstd::prelude::*;
use vstd::string::*;
use vstd::utf8::encode_utf8;
use crate::path::is_relative;
use crate::filesystem::Entry;
use crate::provider::{RequesterModel, WriteRequester};
use crate::comparison::{Comparison, Verdict, Explained};

verus! {

/// The bytes of a text.
pub open spec fn bytes_of(text: Seq<char>) -> Seq<u8> {
    encode_utf8(text)
}

/// The decimal digits of a number, as ASCII.
pub open spec fn decimal(n: nat) -> Seq<u8>
    decreases n,
{
    if n < 10 {
        seq![(48 + n) as u8]
    } else {
        decimal(n / 10).push((48 + n % 10) as u8)
    }
}

/// The numbers of `bytes` in decimal with `, ` between them.
pub open spec fn numbers(bytes: Seq<u8>) -> Seq<u8>
    decreases bytes.len(),
{
    if bytes.len() == 0 {
        Seq::empty()
    } else if bytes.len() == 1 {
        decimal(bytes[0] as nat)
    } else {
        numbers(bytes.drop_last()) + bytes_of(", "@) + decimal(bytes.last() as nat)
    }
}

/// A list of bytes as text: the numbers in square brackets.
pub open spec fn dump(bytes: Seq<u8>) -> Seq<u8> {
    bytes_of("["@) + numbers(bytes) + bytes_of("]"@)
}

/// The report on two contents that differ: for each side a line with its
/// length and a line with its bytes.
pub open spec fn binary_report(expected: Seq<u8>, actual: Seq<u8>) -> Seq<u8> {
    bytes_of("expected (length "@) + decimal(expected.len()) + bytes_of("):\n"@) + dump(expected)
        + bytes_of("\nactual (length "@) + decimal(actual.len()) + bytes_of("):\n"@) + dump(
        actual,
    ) + bytes_of("\n"@)
}

/// The name of a sidecar file: the artifact's name with an ending.
pub open spec fn with_ending(name: Seq<char>, ending: Seq<char>) -> Seq<char> {
    name + ending
}

/// Appends the bytes of `text` to `out`.
pub fn push_text(out: &mut Vec<u8>, text: &str)
    ensures
        final(out)@ == old(out)@ + bytes_of(text@),
{
    out.extend_from_slice(text.as_bytes());
}

/// Appends the decimal digits of `n` to `out`.
pub fn push_decimal(out: &mut Vec<u8>, n: usize)
    ensures
        final(out)@ == old(out)@ + decimal(n as nat),
    decreases n,
{
    if n >= 10 {
        push_decimal(out, n / 10);
    }
    let digit: u8 = (n % 10) as u8;
    proof {
        if n >= 10 {
            assert(old(out)@ + decimal(n as nat) =~= (old(out)@ + decimal((n / 10) as nat)).push(
                (48 + n % 10) as u8,
            ));
        } else {
            assert(old(out)@ + decimal(n as nat) =~= old(out)@.push((48 + n) as u8));
        }
    }
    out.push(48 + digit);
}

/// Appends the list of `bytes` as text to `out`.
pub fn push_dump(out: &mut Vec<u8>, bytes: &[u8])
    ensures
        final(out)@ == old(out)@ + dump(bytes@),
{
    let ghost start = out@;
    push_text(out, "[");
    let ghost opened = out@;
    let mut i: usize = 0;
    proof {
        assert(bytes@.take(0) =~= Seq::<u8>::empty());
        assert(opened + numbers(bytes@.take(0)) =~= opened);
    }
    while i < bytes.len()
        invariant
            i <= bytes@.len(),
            opened == start + bytes_of("["@),
            out@ == opened + numbers(bytes@.take(i as int)),
        decreases bytes.len() - i,
    {
        let ghost before = bytes@.take(i as int);
        let ghost next = bytes@.take(i + 1);
        proof {
            assert(next.drop_last() =~= before);
            assert(next.last() == bytes@[i as int]);
        }
        if i > 0 {
            push_text(out, ", ");
        }
        push_decimal(out, bytes[i] as usize);
        proof {
            if i > 0 {
                assert(out@ =~= opened + (numbers(before) + bytes_of(", "@) + decimal(
                    bytes@[i as int] as nat,
                )));
            } else {
                assert(numbers(before) =~= Seq::<u8>::empty());
                assert(out@ =~= opened + decimal(bytes@[i as int] as nat));
            }
        }
        i = i + 1;
    }
    proof {
        assert(bytes@.take(i as int) =~= bytes@);
    }
    push_text(out, "]");
    proof {
        assert(out@ =~= start + dump(bytes@));
    }
}

/// Tells whether two contents are the same, byte by byte.
pub fn bitwise_equals(expected: &[u8], actual: &[u8]) -> (r: bool)
    ensures
        r == (expected@ == actual@),
{
    if expected.len() != actual.len() {
        return false;
    }
    let mut i: usize = 0;
    while i < expected.len()
        invariant
            i <= expected@.len(),
            expected@.len() == actual@.len(),
            forall|k: int| 0 <= k < i ==> expected@[k] == actual@[k],
        decreases expected.len() - i,
    {
        if expected[i] != actual[i] {
            return false;
        }
        i = i + 1;
    }
    proof {
        assert(expected@ =~= actual@);
    }
    true
}

/// Reports two contents that differ: for each side its length and its
/// bytes.
pub fn binary_diff(expected: Vec<u8>, actual: Vec<u8>) -> (r: Vec<u8>)
    ensures
        r@ == binary_report(expected@, actual@),
{
    let mut out: Vec<u8> = Vec::new();
    push_text(&mut out, "expected (length ");
    push_decimal(&mut out, expected.len());
    push_text(&mut out, "):\n");
    push_dump(&mut out, expected.as_slice());
    push_text(&mut out, "\nactual (length ");
    push_decimal(&mut out, actual.len());
    push_text(&mut out, "):\n");
    push_dump(&mut out, actual.as_slice());
    push_text(&mut out, "\n");
    proof {
        assert(out@ =~= binary_report(expected@, actual@));
    }
    out
}

/// The name of a sidecar file: `name` with `ending` appended.
pub fn add_extension(name: &str, ending: &str) -> (r: String)
    ensures
        r@ == with_ending(name@, ending@),
{
    let mut out = String::from_str(name);
    out.append(ending);
    out
}

/// A sidecar name is relative when the artifact's name is relative and not
/// empty.
pub proof fn lemma_with_ending_relative(name: Seq<char>, ending: Seq<char>)
    requires
        is_relative(name),
        name.len() > 0 || is_relative(ending),
    ensures
        is_relative(with_ending(name, ending)),
{
}

/// Compares byte by byte and explains a difference by a dump of both sides
/// in the sidecar file `<name>.diff`.
#[derive(Debug, Clone, Copy)]
pub struct Bytes;

impl Comparison for Bytes {
    open spec fn verdict(&self, actual: Seq<u8>, expected: Seq<u8>) -> Verdict {
        if expected == actual {
            Verdict::Equal
        } else {
            Verdict::Unequal
        }
    }

    open spec fn explained(
        &self,
        actual: Seq<u8>,
        expected: Seq<u8>,
        name: Seq<char>,
        before: RequesterModel,
    ) -> Explained {
        Explained {
            requester: RequesterModel {
                pending: before.pending.push(
                    Entry {
                        path: with_ending(name, ".diff"@),
                        content: binary_report(expected, actual),
                    },
                ),
                ..before
            },
            failure: None,
        }
    }

    proof fn explained_extends(
        &self,
        actual: Seq<u8>,
        expected: Seq<u8>,
        name: Seq<char>,
        before: RequesterModel,
    ) {
    }

    fn equal(&self, actual: &Vec<u8>, expected: &Vec<u8>) -> (r: core::result::Result<
        bool,
        String,
    >) {
        Ok(bitwise_equals(expected.as_slice(), actual.as_slice()))
    }

    fn diff(
        &self,
        actual: &Vec<u8>,
        expected: &Vec<u8>,
        name: &str,
        requester: &mut WriteRequester,
    ) -> (r: core::result::Result<(), String>) {
        let sidecar = add_extension(name, ".diff");
        proof {
            reveal_strlit(".diff");
            lemma_with_ending_relative(name@, ".diff"@);
        }
        let report = binary_diff(
            vstd::slice::slice_to_vec(expected.as_slice()),
            vstd::slice::slice_to_vec(actual.as_slice()),
        );
        requester.request(sidecar.as_str(), report)
    }
}

} // verus!
