//! What the two ends of the transport agree on: where the collecting
//! process listens, and how the test process is started and told where to
//! report.

use vstd::prelude::*;
use vstd::string::*;
use crate::summary::{decimal_text, push_number};
use crate::config::{pieces_from, comma_separated};

verus! {

/// The first port that the collecting process tries.
pub const BASE_PORT: u32 = 9000;

/// How many ports it tries from the first one on.
pub const PORT_ATTEMPTS: u32 = 100;

/// The address tried at an attempt: the ports from the first one on, one
/// after the other, then the port after them as the last resort; after that
/// there is nothing left to try.
pub open spec fn candidate(attempt: u32) -> Option<Seq<char>> {
    if attempt <= PORT_ATTEMPTS {
        Some("localhost:"@ + decimal_text((BASE_PORT + attempt) as nat))
    } else {
        None
    }
}

/// The address to try at the given attempt, counted from zero.
pub fn candidate_address(attempt: u32) -> (r: Option<String>)
    ensures
        r.is_some() == candidate(attempt).is_some(),
        r.is_some() ==> r.unwrap()@ == candidate(attempt).unwrap(),
{
    if attempt <= PORT_ATTEMPTS {
        let mut address = String::from_str("localhost:");
        push_number(&mut address, (BASE_PORT + attempt) as u128);
        Some(address)
    } else {
        None
    }
}

/// The texts of a list with commas between them.
pub open spec fn comma_joined(list: Seq<String>) -> Seq<char>
    decreases list.len(),
{
    if list.len() == 0 {
        Seq::empty()
    } else if list.len() == 1 {
        list[0]@
    } else {
        comma_joined(list.drop_last()) + ","@ + list.last()@
    }
}

/// Joins the texts of a list with commas.
pub fn join_with_commas(list: &Vec<String>) -> (r: String)
    ensures
        r@ == comma_joined(list@),
{
    let mut out = String::new();
    let mut i: usize = 0;
    proof {
        assert(list@.take(0) =~= Seq::<String>::empty());
    }
    while i < list.len()
        invariant
            i <= list@.len(),
            out@ == comma_joined(list@.take(i as int)),
        decreases list.len() - i,
    {
        let ghost before = out@;
        proof {
            assert(list@.take(i + 1).drop_last() =~= list@.take(i as int));
            assert(list@.take(i + 1).last() == list@[i as int]);
            assert(list@.take(i + 1)[0] == list@[0]);
        }
        if i > 0 {
            out.append(",");
        }
        out.append(list[i].as_str());
        proof {
            if i == 0 {
                assert(before =~= Seq::<char>::empty());
                assert(out@ =~= list@[0]@);
            }
        }
        i = i + 1;
    }
    proof {
        assert(list@.take(i as int) =~= list@);
    }
    out
}

/// A text holds no comma.
pub open spec fn comma_free(text: Seq<char>) -> bool {
    forall|i: int| 0 <= i < text.len() ==> text[i] != ','
}

/// A text without a comma is one piece, after what was gathered before it.
pub proof fn lemma_one_piece(text: Seq<char>, piece: Seq<char>)
    requires
        comma_free(text),
    ensures
        pieces_from(text, piece) == seq![piece + text],
    decreases text.len(),
{
    if text.len() == 0 {
        assert(piece + text =~= piece);
    } else {
        assert(text[0] != ',');
        assert forall|i: int| 0 <= i < text.skip(1).len() implies text.skip(1)[i] != ',' by {
            assert(text.skip(1)[i] == text[i + 1]);
        }
        lemma_one_piece(text.skip(1), piece.push(text[0]));
        assert(piece.push(text[0]) + text.skip(1) =~= piece + text);
    }
}

/// A comma and a text without a comma add one piece.
pub proof fn lemma_one_more_piece(text: Seq<char>, last: Seq<char>, piece: Seq<char>)
    requires
        comma_free(last),
    ensures
        pieces_from(text + seq![','] + last, piece) == pieces_from(text, piece).push(last),
    decreases text.len(),
{
    let whole = text + seq![','] + last;
    if text.len() == 0 {
        assert(whole[0] == ',');
        assert(whole.skip(1) =~= last);
        lemma_one_piece(last, Seq::empty());
        assert(Seq::<char>::empty() + last =~= last);
        assert(seq![piece] + seq![last] =~= seq![piece].push(last));
    } else {
        assert(whole[0] == text[0]);
        assert(whole.skip(1) =~= text.skip(1) + seq![','] + last);
        if text[0] == ',' {
            lemma_one_more_piece(text.skip(1), last, Seq::empty());
            assert(seq![piece] + pieces_from(text.skip(1), Seq::empty()).push(last) =~= (seq![
                piece,
            ] + pieces_from(text.skip(1), Seq::empty())).push(last));
        } else {
            lemma_one_more_piece(text.skip(1), last, piece.push(text[0]));
        }
    }
}

/// What is joined with commas is split into the same list again: the test
/// process reads the endings that the collecting process was given, as long
/// as there is at least one and none of them holds a comma.
pub proof fn lemma_split_joined(list: Seq<String>)
    requires
        list.len() > 0,
        forall|i: int| 0 <= i < list.len() ==> comma_free(#[trigger] list[i]@),
    ensures
        comma_separated(comma_joined(list)) == list.map_values(|s: String| s@),
    decreases list.len(),
{
    let views = list.map_values(|s: String| s@);
    if list.len() == 1 {
        lemma_one_piece(list[0]@, Seq::empty());
        assert(Seq::<char>::empty() + list[0]@ =~= list[0]@);
        assert(views =~= seq![list[0]@]);
    } else {
        let head = list.drop_last();
        assert forall|i: int| 0 <= i < head.len() implies comma_free(#[trigger] head[i]@) by {
            assert(head[i] == list[i]);
        }
        lemma_split_joined(head);
        reveal_strlit(",");
        assert(","@ =~= seq![',']);
        lemma_one_more_piece(comma_joined(head), list.last()@, Seq::empty());
        assert(head.map_values(|s: String| s@).push(list.last()@) =~= views);
    }
}

/// A variable of the environment: its name and its value.
#[derive(Debug, Clone, PartialEq, Eq)]
pub struct Variable {
    pub name: String,
    pub value: String,
}

/// The mathematical value of a [`Variable`].
pub struct VariableModel {
    pub name: Seq<char>,
    pub value: Seq<char>,
}

impl View for Variable {
    type V = VariableModel;

    open spec fn view(&self) -> VariableModel {
        VariableModel { name: self.name@, value: self.value@ }
    }
}

/// What the test process is told through its environment: the name filter
/// if there is one, the endings of the files to validate if any were given,
/// and the address to report to.
pub open spec fn environment(
    filter: Option<String>,
    filetypes: Seq<String>,
    address: Seq<char>,
) -> Seq<VariableModel> {
    let named = match filter {
        Some(part) => seq![VariableModel { name: "CARGO_EXPECT_FILTER"@, value: part@ }],
        None => Seq::empty(),
    };
    let typed = if filetypes.len() > 0 {
        seq![VariableModel { name: "CARGO_EXPECT_FILES"@, value: comma_joined(filetypes) }]
    } else {
        Seq::empty()
    };
    named + typed + seq![VariableModel { name: "CARGO_EXPECT_IPC"@, value: address }]
}

/// Makes a variable.
fn variable(name: &str, value: &str) -> (r: Variable)
    ensures
        r@ == (VariableModel { name: name@, value: value@ }),
{
    Variable { name: String::from_str(name), value: String::from_str(value) }
}

/// The environment of the test process.
pub fn test_environment(filter: &Option<String>, filetypes: &Vec<String>, address: &str) -> (r:
    Vec<Variable>)
    ensures
        r@.map_values(|v: Variable| v@) == environment(*filter, filetypes@, address@),
{
    let mut out: Vec<Variable> = Vec::new();
    match filter {
        Some(part) => {
            out.push(variable("CARGO_EXPECT_FILTER", part.as_str()));
        },
        None => {},
    }
    if filetypes.len() > 0 {
        let joined = join_with_commas(filetypes);
        out.push(variable("CARGO_EXPECT_FILES", joined.as_str()));
    }
    out.push(variable("CARGO_EXPECT_IPC", address));
    proof {
        assert(out@.map_values(|v: Variable| v@) =~= environment(*filter, filetypes@, address@));
    }
    out
}

/// The arguments that start the tests: the library's tests, of the release
/// build if asked for, and among them the expectation tests.
pub open spec fn arguments(release: bool) -> Seq<Seq<char>> {
    if release {
        seq!["test"@, "--lib"@, "--release"@, "expectation_test"@]
    } else {
        seq!["test"@, "--lib"@, "expectation_test"@]
    }
}

/// The arguments that start the tests.
pub fn test_arguments(release: bool) -> (r: Vec<String>)
    ensures
        r@.map_values(|s: String| s@) == arguments(release),
{
    let mut out: Vec<String> = Vec::new();
    out.push(String::from_str("test"));
    out.push(String::from_str("--lib"));
    if release {
        out.push(String::from_str("--release"));
    }
    out.push(String::from_str("expectation_test"));
    proof {
        assert(out@.map_values(|s: String| s@) =~= arguments(release));
    }
    out
}

} // verus!
