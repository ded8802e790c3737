//! What a search has to find out about the machine it runs on. The search itself asks no one: it
//! works on what is known so far. Where it needs an answer that is not known, it goes on as if
//! there were none, and writes that down with the known facts. The first assumption it made is what
//! it has to know next; where it made none, its result holds of every machine that answers as is
//! known.
//!
//! Some questions are acts: to ask whether `adb` can connect to an address is to connect to it, and
//! what is asked of the device afterwards depends on it. So the order of the questions counts, and
//! every search says exactly what it asks, one question after the other.
use crate::text;
use crate::text::opt_view;
use vstd::prelude::*;

verus! {

/// Something to find out. An answer is a text, or that there is none: for a file, any text if it
/// exists; for a program, what it wrote if it succeeded.
#[derive(Debug, PartialEq, Eq)]
pub enum Question {
    /// Does this path exist?
    Exists { path: String },
    /// Is this a file?
    IsFile { path: String },
    /// What does the MuMu manager at this path say of all its instances?
    MuMuInfo { program: String },
    /// Which instances does the LDPlayer console at this path list?
    InstanceList { program: String },
    /// Can `adb` connect to this address?
    Connect { serial: String },
    /// In what state is this device?
    DeviceState { serial: String },
    /// Where is this package installed on this device?
    PackagePath { serial: String, package: &'static str },
}

/// What is asked.
#[verifier::ext_equal]
pub enum Asked {
    Exists(Seq<char>),
    IsFile(Seq<char>),
    MuMuInfo(Seq<char>),
    InstanceList(Seq<char>),
    Connect(Seq<char>),
    DeviceState(Seq<char>),
    PackagePath(Seq<char>, Seq<char>),
}

impl View for Question {
    type V = Asked;

    open spec fn view(&self) -> Asked {
        match *self {
            Question::Exists { path } => Asked::Exists(path@),
            Question::IsFile { path } => Asked::IsFile(path@),
            Question::MuMuInfo { program } => Asked::MuMuInfo(program@),
            Question::InstanceList { program } => Asked::InstanceList(program@),
            Question::Connect { serial } => Asked::Connect(serial@),
            Question::DeviceState { serial } => Asked::DeviceState(serial@),
            Question::PackagePath { serial, package } => Asked::PackagePath(serial@, package@),
        }
    }
}

/// A question with its answer.
#[derive(Debug)]
pub struct Fact {
    pub question: Question,
    pub answer: Option<String>,
}

/// A machine: what it answers to every question when a search comes to ask it.
pub type Machine = spec_fn(Asked) -> Option<Seq<char>>;

/// The machine answers as is known.
pub open spec fn fits(machine: Machine, facts: Seq<Fact>) -> bool {
    forall|i: int|
        0 <= i < facts.len() ==> machine((#[trigger] facts[i]).question@) == opt_view(
            facts[i].answer,
        )
}

/// The answer is not known.
pub open spec fn unknown(facts: Seq<Fact>, asked: Asked) -> bool {
    forall|i: int| 0 <= i < facts.len() ==> (#[trigger] facts[i]).question@ != asked
}

/// What was asked, in this order.
pub open spec fn questions(facts: Seq<Fact>) -> Seq<Asked> {
    facts.map_values(|fact: Fact| fact.question@)
}

/// What has been asked once `question` is asked too: nothing is asked twice.
pub open spec fn having_asked(asked: Seq<Asked>, question: Asked) -> Seq<Asked> {
    if asked.contains(question) {
        asked
    } else {
        asked.push(question)
    }
}

/// `answer` is what the first fact with this question says.
pub open spec fn is_known_answer(
    facts: Seq<Fact>,
    asked: Asked,
    answer: Option<Seq<char>>,
) -> bool {
    exists|i: int|
        0 <= i < facts.len() && (#[trigger] facts[i]).question@ == asked && opt_view(
            facts[i].answer,
        ) == answer && is_new(facts, i)
}

fn same_question(a: &Question, b: &Question) -> (r: bool)
    ensures
        r == (a@ == b@),
{
    match (a, b) {
        (Question::Exists { path: x }, Question::Exists { path: y }) => text::same(x, y),
        (Question::IsFile { path: x }, Question::IsFile { path: y }) => text::same(x, y),
        (Question::MuMuInfo { program: x }, Question::MuMuInfo { program: y }) => text::same(x, y),
        (Question::InstanceList { program: x }, Question::InstanceList { program: y }) => {
            text::same(x, y)
        },
        (Question::Connect { serial: x }, Question::Connect { serial: y }) => text::same(x, y),
        (Question::DeviceState { serial: x }, Question::DeviceState { serial: y }) => {
            text::same(x, y)
        },
        (
            Question::PackagePath { serial: x, package: p },
            Question::PackagePath { serial: y, package: q },
        ) => { text::same(x, y) && text::same(p, q) },
        _ => false,
    }
}

/// No question before the one at `i` is the same.
pub open spec fn is_new(facts: Seq<Fact>, i: int) -> bool {
    forall|j: int| 0 <= j < i ==> (#[trigger] facts[j]).question@ != facts[i].question@
}

/// No question stands among the facts twice.
pub open spec fn consistent(facts: Seq<Fact>) -> bool {
    forall|i: int| 0 <= i < facts.len() ==> #[trigger] is_new(facts, i)
}

/// What is known stays known, and each assumption is that a question with no known answer has none.
pub open spec fn grows(before: Seq<Fact>, after: Seq<Fact>) -> bool {
    &&& before.len() <= after.len()
    &&& forall|i: int| #![trigger before[i]] #![trigger after[i]]
        0 <= i < before.len() ==> after[i] == before[i]
    &&& forall|i: int|
        before.len() <= i < after.len() ==> (#[trigger] after[i]).answer is None && is_new(after, i)
    &&& forall|machine: Machine| #[trigger] fits(machine, after) ==> fits(machine, before)
}

/// The known answer to a question, and none where it is not known.
pub open spec fn known_answer(facts: Seq<Fact>, asked: Asked) -> Option<Seq<char>>
    decreases facts.len(),
{
    if facts.len() == 0 {
        None
    } else if facts.last().question@ == asked {
        opt_view(facts.last().answer)
    } else {
        known_answer(facts.drop_last(), asked)
    }
}

/// The machine of which nothing but the known facts is assumed.
pub open spec fn known_machine(facts: Seq<Fact>) -> Machine {
    |asked: Asked| known_answer(facts, asked)
}

proof fn lemma_known_answer(facts: Seq<Fact>, i: int)
    requires
        consistent(facts),
        0 <= i < facts.len(),
    ensures
        known_answer(facts, facts[i].question@) == opt_view(facts[i].answer),
    decreases facts.len(),
{
    if i < facts.len() - 1 {
        let rest = facts.drop_last();
        assert(is_new(facts, facts.len() - 1));
        assert(facts[i].question@ != facts.last().question@);
        assert forall|k: int| 0 <= k < rest.len() implies #[trigger] is_new(rest, k) by {
            assert(is_new(facts, k));
            assert forall|j: int| 0 <= j < k implies (#[trigger] rest[j]).question@
                != rest[k].question@ by {
                assert(facts[j].question@ != facts[k].question@);
            }
        }
        lemma_known_answer(rest, i);
    }
}

/// There is a machine that answers as is known, so that what holds of all such machines pins the
/// result down.
pub proof fn law_known_machine_fits(facts: Seq<Fact>)
    requires
        consistent(facts),
    ensures
        fits(known_machine(facts), facts),
{
    assert forall|i: int| 0 <= i < facts.len() implies known_machine(facts)(
        (#[trigger] facts[i]).question@,
    ) == opt_view(facts[i].answer) by {
        lemma_known_answer(facts, i);
    }
}

/// Assumptions say nothing new: the machine of which nothing more is assumed than is known answers
/// every question in the same way with them and without them.
pub proof fn law_assumptions_add_nothing(before: Seq<Fact>, after: Seq<Fact>, asked: Asked)
    requires
        grows(before, after),
    ensures
        known_answer(after, asked) == known_answer(before, asked),
    decreases after.len(),
{
    if after.len() == before.len() {
        assert(after =~= before);
    } else {
        let rest = after.drop_last();
        let n = after.len() - 1;
        assert(after[n] == after.last());
        assert forall|machine: Machine| #[trigger] fits(machine, rest) implies fits(
            machine,
            before,
        ) by {
            assert forall|i: int| 0 <= i < before.len() implies machine(
                (#[trigger] before[i]).question@,
            ) == opt_view(before[i].answer) by {
                assert(rest[i] == before[i]);
            }
        }
        assert forall|i: int| before.len() <= i < rest.len() implies (#[trigger] rest[i]).answer
            is None && is_new(rest, i) by {
            assert(after[i].answer is None && is_new(after, i));
            assert forall|j: int| 0 <= j < i implies (#[trigger] rest[j]).question@
                != rest[i].question@ by {
                assert(after[j].question@ != after[i].question@);
            }
        }
        law_assumptions_add_nothing(before, rest, asked);
        if after.last().question@ == asked {
            assert(is_new(after, n));
            lemma_not_known(rest, asked);
        }
    }
}

proof fn lemma_not_known(facts: Seq<Fact>, asked: Asked)
    requires
        unknown(facts, asked),
    ensures
        known_answer(facts, asked) is None,
    decreases facts.len(),
{
    if facts.len() > 0 {
        assert(facts[facts.len() - 1].question@ != asked);
        lemma_not_known(facts.drop_last(), asked);
    }
}

/// Assumptions never contradict what is known, nor each other.
pub proof fn law_assumptions_are_consistent(before: Seq<Fact>, after: Seq<Fact>)
    requires
        consistent(before),
        grows(before, after),
    ensures
        consistent(after),
{
    assert forall|i: int| 0 <= i < after.len() implies #[trigger] is_new(after, i) by {
        if i < before.len() {
            assert(is_new(before, i));
            assert forall|j: int| 0 <= j < i implies (#[trigger] after[j]).question@
                != after[i].question@ by {
                assert(before[j].question@ != before[i].question@);
            }
        } else {
            assert(after[i].answer is None);
        }
    }
}

/// The answer to `question`. Where it is not known, none is assumed.
pub fn ask(facts: &mut Vec<Fact>, question: Question) -> (answer: Option<String>)
    ensures
        grows(old(facts)@, final(facts)@),
        questions(final(facts)@) == having_asked(questions(old(facts)@), question@),
        if unknown(old(facts)@, question@) {
            answer is None && final(facts)@ == old(facts)@.push(Fact { question, answer: None })
        } else {
            is_known_answer(old(facts)@, question@, opt_view(answer)) && final(facts)@ == old(
                facts,
            )@
        },
        forall|machine: Machine| #[trigger]
            fits(machine, final(facts)@) ==> machine(question@) == opt_view(answer),
{
    let ghost asked = questions(facts@);
    let mut i: usize = 0;
    while i < facts.len()
        invariant
            i <= facts@.len(),
            facts@ == old(facts)@,
            asked == questions(facts@),
            forall|k: int| 0 <= k < i ==> (#[trigger] facts@[k]).question@ != question@,
        decreases facts@.len() - i,
    {
        if same_question(&facts[i].question, &question) {
            let answer = text::copy_opt(&facts[i].answer);
            proof {
                assert(asked[i as int] == question@);
                assert(is_new(facts@, i as int));
            }
            assert forall|machine: Machine| #[trigger] fits(machine, facts@) implies machine(
                question@,
            ) == opt_view(answer) by {
                assert(machine(facts@[i as int].question@) == opt_view(facts@[i as int].answer));
            }
            return answer;
        }
        i += 1;
    }
    let ghost before = facts@;
    facts.push(Fact { question, answer: None });
    proof {
        assert forall|k: int| 0 <= k < asked.len() implies asked[k] != question@ by {
            assert(asked[k] == before[k].question@);
        }
        assert(questions(facts@) =~= asked.push(question@));
        assert forall|machine: Machine| #[trigger] fits(machine, facts@) implies fits(
            machine,
            before,
        ) && machine(question@) is None by {
            assert forall|k: int| 0 <= k < before.len() implies machine(
                (#[trigger] before[k]).question@,
            ) == opt_view(before[k].answer) by {
                assert(facts@[k] == before[k]);
            }
            assert(facts@[before.len() as int].question@ == question@);
        }
    }
    None
}

pub open spec fn path_exists(machine: Machine, path: Seq<char>) -> bool {
    machine(Asked::Exists(path)) is Some
}

pub fn path_is_there(facts: &mut Vec<Fact>, path: &str) -> (b: bool)
    ensures
        grows(old(facts)@, final(facts)@),
        questions(final(facts)@) == having_asked(questions(old(facts)@), Asked::Exists(path@)),
        forall|machine: Machine| #[trigger]
            fits(machine, final(facts)@) ==> b == path_exists(machine, path@),
{
    ask(facts, Question::Exists { path: path.to_owned() }).is_some()
}

} // verus!
