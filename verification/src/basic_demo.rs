//! The ECS smoke test: three people are spawned, the first one named
//! "Elaina Proctor" is renamed "Elaina Hume", and everyone is greeted on a
//! timer.
use vstd::prelude::*;
use vstd::string::StringExecFns;

verus! {

/// Plugin that spawns the people and greets them every two seconds.
///
/// A name only, with no behaviour of its own: the engine-side type of the
/// same name, built from this one, holds the engine wiring.
pub struct BasicDemoPlugin;

/// The names after one renaming pass: the first "Elaina Proctor" becomes
/// "Elaina Hume"; nothing else changes.
pub open spec fn renamed(names: Seq<Seq<char>>) -> Seq<Seq<char>>
    decreases names.len(),
{
    if names.len() == 0 {
        names
    } else if names[0] == "Elaina Proctor"@ {
        names.update(0, "Elaina Hume"@)
    } else {
        seq![names[0]] + renamed(names.skip(1))
    }
}

/// The names held by a list of strings.
pub open spec fn names_of(people: Seq<String>) -> Seq<Seq<char>> {
    people.map_values(|s: String| s@)
}

/// The people spawned at start-up.
pub fn initial_people() -> (people: Vec<String>)
    ensures
        names_of(people@) == seq!["Elaina Proctor"@, "Renzo Hume"@, "Zayna Nieves"@],
{
    let mut people: Vec<String> = Vec::new();
    people.push(String::from_str("Elaina Proctor"));
    people.push(String::from_str("Renzo Hume"));
    people.push(String::from_str("Zayna Nieves"));
    assert(names_of(people@) =~= seq!["Elaina Proctor"@, "Renzo Hume"@, "Zayna Nieves"@]);
    people
}

/// Where the first "Elaina Proctor" of the list stands at `i`, a renaming
/// pass gives the list with entry `i` set to "Elaina Hume" and every other
/// entry, later namesakes included, unchanged.
pub proof fn lemma_renamed_at(names: Seq<Seq<char>>, i: int)
    requires
        0 <= i < names.len(),
        names[i] == "Elaina Proctor"@,
        forall|j: int| 0 <= j < i ==> names[j] != "Elaina Proctor"@,
    ensures
        renamed(names) == names.update(i, "Elaina Hume"@),
    decreases names.len(),
{
    if i > 0 {
        let rest = names.skip(1);
        assert forall|j: int| 0 <= j < i - 1 implies rest[j] != "Elaina Proctor"@ by {
            assert(rest[j] == names[j + 1]);
        }
        lemma_renamed_at(rest, i - 1);
        assert(seq![names[0]] + rest.update(i - 1, "Elaina Hume"@) =~= names.update(i, "Elaina Hume"@));
    }
}

/// A renaming pass over a list in which nobody is named "Elaina Proctor"
/// gives the list back unchanged.
pub proof fn lemma_renamed_none(names: Seq<Seq<char>>)
    requires
        forall|j: int| 0 <= j < names.len() ==> names[j] != "Elaina Proctor"@,
    ensures
        renamed(names) == names,
    decreases names.len(),
{
    if names.len() > 0 {
        let rest = names.skip(1);
        assert forall|j: int| 0 <= j < rest.len() implies rest[j] != "Elaina Proctor"@ by {
            assert(rest[j] == names[j + 1]);
        }
        lemma_renamed_none(rest);
        assert(seq![names[0]] + rest =~= names);
    }
}

/// One update pass over the people: the first one named "Elaina Proctor"
/// is renamed "Elaina Hume".
pub fn update_people(people: &mut Vec<String>)
    ensures
        names_of(final(people)@) == renamed(names_of(old(people)@)),
{
    let target = String::from_str("Elaina Proctor");
    let ghost before = names_of(people@);
    let mut i: usize = 0;
    while i < people.len()
        invariant
            people@ == old(people)@,
            before == names_of(people@),
            target@ == "Elaina Proctor"@,
            i <= people@.len(),
            forall|j: int| 0 <= j < i ==> before[j] != "Elaina Proctor"@,
        decreases people@.len() - i,
    {
        if people[i] == target {
            proof {
                lemma_renamed_at(before, i as int);
            }
            people.set(i, String::from_str("Elaina Hume"));
            assert(names_of(people@) =~= before.update(i as int, "Elaina Hume"@));
            return;
        }
        i += 1;
    }
    proof {
        lemma_renamed_none(before);
    }
}

/// The greeting printed for a person: "hello <name>!".
pub fn greeting(name: &String) -> (line: String)
    ensures
        line@ == "hello "@ + name@ + "!"@,
{
    let mut line = String::from_str("hello ");
    line.append(name.as_str());
    line.append("!");
    line
}

/// A renaming pass only touches the first "Elaina Proctor": the list keeps
/// its length, and every other entry keeps its name.
pub proof fn lemma_renaming_touches_one(names: Seq<Seq<char>>, j: int)
    requires
        0 <= j < names.len(),
        names[j] != "Elaina Proctor"@,
    ensures
        renamed(names).len() == names.len(),
        renamed(names)[j] == names[j],
    decreases names.len(),
{
    if names.len() > 0 && names[0] != "Elaina Proctor"@ {
        if j > 0 {
            lemma_renaming_touches_one(names.skip(1), j - 1);
        } else {
            lemma_renamed_len(names.skip(1));
        }
    }
}

/// Renaming keeps the number of people.
proof fn lemma_renamed_len(names: Seq<Seq<char>>)
    ensures
        renamed(names).len() == names.len(),
    decreases names.len(),
{
    if names.len() > 0 && names[0] != "Elaina Proctor"@ {
        lemma_renamed_len(names.skip(1));
    }
}

} // verus!
