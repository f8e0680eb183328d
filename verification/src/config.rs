//! What a test run is told from outside: which tests to run and which files
//! to validate.

use vstd::prelude::*;
use vstd::string::*;
use crate::path::{has_suffix, ends_with, occurs_in, contains, chars_of};

verus! {

/// Decides which files are validated.
pub trait FileFilter {
    /// Whether the file named `file` is validated.
    spec fn allows(&self, file: Seq<char>) -> bool;

    /// Tells whether the file named `file` is validated.
    fn accepts(&self, file: &str) -> (r: bool)
        ensures
            r == self.allows(file@),
    ;
}

/// Validates every file.
#[derive(Debug, Clone, Copy)]
pub struct AllFiles;

impl FileFilter for AllFiles {
    open spec fn allows(&self, file: Seq<char>) -> bool {
        true
    }

    fn accepts(&self, file: &str) -> (r: bool) {
        true
    }
}

/// Validates the files whose names end in one of the given endings; with no
/// list given, every file.
#[derive(Debug)]
pub struct FileTypes {
    pub endings: Option<Vec<String>>,
}

/// One of `endings` ends `file`.
pub open spec fn some_ending(endings: Seq<String>, file: Seq<char>) -> bool {
    exists|i: int| 0 <= i < endings.len() && has_suffix(file, (#[trigger] endings[i])@)
}

impl FileFilter for FileTypes {
    open spec fn allows(&self, file: Seq<char>) -> bool {
        match self.endings {
            Some(endings) => some_ending(endings@, file),
            None => true,
        }
    }

    fn accepts(&self, file: &str) -> (r: bool) {
        match &self.endings {
            None => true,
            Some(endings) => {
                let mut i: usize = 0;
                while i < endings.len()
                    invariant
                        i <= endings@.len(),
                        self.endings == Some(*endings),
                        forall|k: int| 0 <= k < i ==> !has_suffix(file@, (#[trigger] endings@[k])@),
                    decreases endings.len() - i,
                {
                    if ends_with(file, endings[i].as_str()) {
                        return true;
                    }
                    i = i + 1;
                }
                false
            },
        }
    }
}

/// Whether the test `name` runs under a name filter: with no filter every
/// test runs, with one the tests whose name holds it.
pub open spec fn runs_under(name: Seq<char>, filter: Option<Seq<char>>) -> bool {
    match filter {
        Some(part) => occurs_in(part, name),
        None => true,
    }
}

/// Tells whether the test `name` runs under the name filter.
pub fn should_continue(name: &str, filter: Option<&str>) -> (r: bool)
    ensures
        r == runs_under(
            name@,
            match filter {
                Some(part) => Some(part@),
                None => None,
            },
        ),
{
    match filter {
        Some(part) => contains(name, part),
        None => true,
    }
}

/// The pieces of `text` between commas: the piece that starts at `from`,
/// grown by the characters up to the next comma, and the pieces after it.
pub open spec fn pieces_from(text: Seq<char>, piece: Seq<char>) -> Seq<Seq<char>>
    decreases text.len(),
{
    if text.len() == 0 {
        seq![piece]
    } else if text[0] == ',' {
        seq![piece] + pieces_from(text.skip(1), Seq::empty())
    } else {
        pieces_from(text.skip(1), piece.push(text[0]))
    }
}

/// The pieces of `text` between commas. A text without a comma is one piece.
pub open spec fn comma_separated(text: Seq<char>) -> Seq<Seq<char>> {
    pieces_from(text, Seq::empty())
}

/// Splits a list of endings at its commas.
pub fn parse_endings(value: &str) -> (r: Vec<String>)
    ensures
        r@.map_values(|s: String| s@) == comma_separated(value@),
{
    let chars = chars_of(value);
    let n: usize = chars.len();
    let mut out: Vec<String> = Vec::new();
    let mut start: usize = 0;
    let mut i: usize = 0;
    proof {
        assert(value@.skip(0) =~= value@);
        assert(value@.subrange(0, 0) =~= Seq::<char>::empty());
    }
    while i < n
        invariant
            start <= i <= n,
            n == value@.len(),
            chars@ == value@,
            comma_separated(value@) == out@.map_values(|s: String| s@) + pieces_from(
                value@.skip(i as int),
                value@.subrange(start as int, i as int),
            ),
        decreases n - i,
    {
        let ghost rest = value@.skip(i as int);
        let ghost piece = value@.subrange(start as int, i as int);
        proof {
            assert(rest[0] == value@[i as int]);
            assert(rest.skip(1) =~= value@.skip(i + 1));
        }
        if chars[i] == ',' {
            let text = String::from_str(value.substring_char(start, i));
            proof {
                assert(out@.push(text).map_values(|s: String| s@) =~= out@.map_values(
                    |s: String| s@,
                ) + seq![piece]);
                assert(value@.subrange(i + 1, i + 1) =~= Seq::<char>::empty());
            }
            out.push(text);
            start = i + 1;
        } else {
            proof {
                assert(value@.subrange(start as int, i + 1) =~= piece.push(value@[i as int]));
            }
        }
        i = i + 1;
    }
    let text = String::from_str(value.substring_char(start, n));
    proof {
        assert(value@.skip(n as int) =~= Seq::<char>::empty());
        assert(out@.push(text).map_values(|s: String| s@) =~= out@.map_values(|s: String| s@)
            + seq![text@]);
    }
    out.push(text);
    out
}

} // verus!
