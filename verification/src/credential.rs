//! The session credential: what makes an entry acceptable.

use vstd::prelude::*;
use vstd::string::*;

verus! {

/// The marker that an acceptable credential holds exactly once.
pub const ROBLOSECURITY_HEADER: &'static str = "_|WARNING:-DO-NOT-SHARE-THIS.--";

/// What the check of an entry finds.
#[derive(Clone, Copy, Debug, PartialEq, Eq, Structural)]
pub enum CredentialCheck {
    /// The marker occurs once: the entry is taken.
    Accepted,
    /// The marker does not occur: the operator is asked again.
    MissingHeader,
    /// The marker occurs more than once: the operator is asked again.
    HeaderRepeated,
}

/// Whether `marker` stands in `text` at position `at`.
pub open spec fn occurs_at(text: Seq<char>, marker: Seq<char>, at: int) -> bool {
    &&& 0 <= at
    &&& at + marker.len() <= text.len()
    &&& text.subrange(at, at + marker.len()) == marker
}

/// How often `marker` is found in `text` from position `from` on, reading
/// from left to right and going on behind each occurrence found.
pub open spec fn occurrences_from(text: Seq<char>, marker: Seq<char>, from: int) -> nat
    decreases text.len() - from,
{
    if marker.len() == 0 || from < 0 || from + marker.len() > text.len() {
        0
    } else if occurs_at(text, marker, from) {
        1 + occurrences_from(text, marker, from + marker.len())
    } else {
        occurrences_from(text, marker, from + 1)
    }
}

/// How often `marker` is found in `text`.
pub open spec fn occurrences(text: Seq<char>, marker: Seq<char>) -> nat {
    occurrences_from(text, marker, 0)
}

/// What the check of an entry finds, by the number of times that the marker
/// occurs in it.
pub open spec fn credential_check(input: Seq<char>) -> CredentialCheck {
    let count = occurrences(input, ROBLOSECURITY_HEADER@);
    if count == 0 {
        CredentialCheck::MissingHeader
    } else if count == 1 {
        CredentialCheck::Accepted
    } else {
        CredentialCheck::HeaderRepeated
    }
}

/// The marker is found in a text exactly where it stands somewhere in it.
pub proof fn lemma_found_where_present(text: Seq<char>, marker: Seq<char>, from: int)
    requires
        marker.len() > 0,
        0 <= from,
    ensures
        occurrences_from(text, marker, from) > 0 <==> exists|at: int|
            from <= at && occurs_at(text, marker, at),
    decreases text.len() - from,
{
    if from + marker.len() > text.len() {
    } else if occurs_at(text, marker, from) {
    } else {
        lemma_found_where_present(text, marker, from + 1);
        if exists|at: int| from <= at && occurs_at(text, marker, at) {
            let at = choose|at: int| from <= at && occurs_at(text, marker, at);
            assert(from + 1 <= at);
        }
    }
}

/// Whether the first character of a marker stands nowhere else in it. Such
/// a marker cannot stand at two places that overlap.
pub open spec fn starts_unlike_rest(marker: Seq<char>) -> bool {
    forall|k: int| 0 < k < marker.len() ==> #[trigger] marker[k] != marker[0]
}

/// Whether `marker` stands in `text` at position `at`, and from `from` on
/// nowhere else.
pub open spec fn only_at(text: Seq<char>, marker: Seq<char>, from: int, at: int) -> bool {
    &&& from <= at
    &&& occurs_at(text, marker, at)
    &&& forall|other: int| from <= other && occurs_at(text, marker, other) ==> other == at
}

/// Two places at which a marker stands lie at least its length apart,
/// where its first character stands nowhere else in it.
pub proof fn lemma_places_apart(text: Seq<char>, marker: Seq<char>, first: int, second: int)
    requires
        starts_unlike_rest(marker),
        occurs_at(text, marker, first),
        occurs_at(text, marker, second),
        first < second,
    ensures
        first + marker.len() <= second,
{
    if second < first + marker.len() {
        let k = second - first;
        assert(text.subrange(first, first + marker.len())[k] == marker[k]);
        assert(text.subrange(second, second + marker.len())[0] == marker[0]);
    }
}

/// A marker whose first character stands nowhere else in it is found once
/// exactly where it stands at one place and no other.
pub proof fn lemma_found_once_where_at_one_place(text: Seq<char>, marker: Seq<char>, from: int)
    requires
        marker.len() > 0,
        starts_unlike_rest(marker),
        0 <= from,
    ensures
        occurrences_from(text, marker, from) == 1 <==> exists|at: int|
            only_at(text, marker, from, at),
    decreases text.len() - from,
{
    if from + marker.len() > text.len() {
    } else if occurs_at(text, marker, from) {
        let behind = from + marker.len();
        lemma_found_where_present(text, marker, behind);
        if occurrences_from(text, marker, behind) == 0 {
            assert forall|other: int| from <= other && occurs_at(text, marker, other) implies other
                == from by {
                if from < other {
                    lemma_places_apart(text, marker, from, other);
                }
            }
            assert(only_at(text, marker, from, from));
        } else {
            let later = choose|at: int| behind <= at && occurs_at(text, marker, at);
            if exists|at: int| only_at(text, marker, from, at) {
                let at = choose|at: int| only_at(text, marker, from, at);
                assert(from == at);
                assert(later == at);
            }
        }
    } else {
        let next = from + 1;
        lemma_found_once_where_at_one_place(text, marker, next);
        if exists|at: int| only_at(text, marker, from, at) {
            let at = choose|at: int| only_at(text, marker, from, at);
            assert(only_at(text, marker, next, at));
        }
        if exists|at: int| only_at(text, marker, next, at) {
            let at = choose|at: int| only_at(text, marker, next, at);
            assert(only_at(text, marker, from, at));
        }
    }
}

/// An entry is accepted exactly where the marker stands at one place in it
/// and at no other; it lacks the marker exactly where the marker stands
/// nowhere in it; and the marker is repeated in every other entry.
pub proof fn lemma_accepted_where_once(input: Seq<char>)
    ensures
        credential_check(input) == CredentialCheck::Accepted <==> exists|at: int|
            only_at(input, ROBLOSECURITY_HEADER@, 0, at),
        credential_check(input) == CredentialCheck::MissingHeader <==> forall|at: int|
            !occurs_at(input, ROBLOSECURITY_HEADER@, at),
{
    reveal_strlit("_|WARNING:-DO-NOT-SHARE-THIS.--");
    let marker = ROBLOSECURITY_HEADER@;
    assert(marker.len() == 31);
    assert(starts_unlike_rest(marker));
    lemma_found_once_where_at_one_place(input, marker, 0);
    lemma_found_where_present(input, marker, 0);
}

/// Whether `marker` stands in `text` at position `at`.
fn stands_at(text: &Vec<char>, marker: &Vec<char>, at: usize) -> (found: bool)
    requires
        at + marker@.len() <= text@.len(),
    ensures
        found == occurs_at(text@, marker@, at as int),
{
    let length = text.len();
    let mut k: usize = 0;
    while k < marker.len()
        invariant
            k <= marker@.len(),
            at + marker@.len() <= text@.len() == length,
            forall|j: int| 0 <= j < k ==> text@[at + j] == marker@[j],
        decreases marker@.len() - k,
    {
        if text[at + k] != marker[k] {
            assert(text@.subrange(at as int, at + marker@.len())[k as int] != marker@[k as int]);
            return false;
        }
        k += 1;
    }
    assert(text@.subrange(at as int, at + marker@.len()) =~= marker@);
    true
}

/// Counts how often `marker` is found in `text`.
fn count_occurrences(text: &Vec<char>, marker: &Vec<char>) -> (count: usize)
    requires
        marker@.len() > 0,
    ensures
        count == occurrences(text@, marker@),
{
    let mut count: usize = 0;
    let mut at: usize = 0;
    while marker.len() <= text.len() && at <= text.len() - marker.len()
        invariant
            marker@.len() > 0,
            at <= text@.len(),
            count <= at,
            count + occurrences_from(text@, marker@, at as int) == occurrences(text@, marker@),
        decreases text@.len() - at,
    {
        if stands_at(text, marker, at) {
            count += 1;
            at += marker.len();
        } else {
            at += 1;
        }
    }
    count
}

/// Checks an entry: it is acceptable where it holds the marker exactly once.
pub fn check_credential(input: &str) -> (check: CredentialCheck)
    ensures
        check == credential_check(input@),
{
    proof {
        reveal_strlit("_|WARNING:-DO-NOT-SHARE-THIS.--");
    }
    let text = chars_of(input);
    let marker = chars_of(ROBLOSECURITY_HEADER);
    let count = count_occurrences(&text, &marker);
    if count == 0 {
        CredentialCheck::MissingHeader
    } else if count == 1 {
        CredentialCheck::Accepted
    } else {
        CredentialCheck::HeaderRepeated
    }
}

/// The characters of a text, one by one.
fn chars_of(text: &str) -> (chars: Vec<char>)
    ensures
        chars@ == text@,
{
    let mut chars: Vec<char> = Vec::new();
    for c in it: text.chars()
        invariant
            it.seq() == text@,
            chars@ == it.seq().take(it.index()),
    {
        chars.push(c);
        assert(chars@ =~= it.seq().take(it.index() + 1));
    }
    assert(chars@ =~= text@);
    chars
}

} // verus!
