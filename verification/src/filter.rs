//! Optional display filter: a set of canonical message-type names built
//! from user input. An absent filter shows everything; a present but empty
//! filter shows nothing.
use crate::text::normalize_name;
use crate::text::normalized_name;
use vstd::prelude::*;

verus! {

/// A set of allowed message-type names, held in canonical (trimmed,
/// upper-cased) form. Immutable after construction.
pub struct MessageFilter {
    names: Vec<String>,
}

impl MessageFilter {
    /// The set of names this filter allows.
    pub closed spec fn allowed(&self) -> Set<Seq<char>> {
        self.names@.map_values(|s: String| s@).to_set()
    }

    /// Whether `name` is a member of the filter set. The name is compared
    /// as given: callers hand in canonical type names.
    pub fn contains(&self, name: &str) -> (r: bool)
        ensures
            r == self.allowed().contains(name@),
    {
        let key: String = name.to_owned();
        let n = self.names.len();
        let mut i: usize = 0;
        while i < n
            invariant
                0 <= i <= n,
                n == self.names@.len(),
                key@ == name@,
                forall|k: int| 0 <= k < i ==> #[trigger] self.names@[k]@ != name@,
            decreases n - i,
        {
            if self.names[i] == key {
                proof {
                    assert(self.names@.map_values(|s: String| s@)[i as int] == name@);
                }
                return true;
            }
            i = i + 1;
        }
        proof {
            let mapped = self.names@.map_values(|s: String| s@);
            assert(forall|k: int| 0 <= k < mapped.len() ==> #[trigger] mapped[k] != name@);
        }
        false
    }
}

/// The set of canonical forms of a list of names.
pub open spec fn normalized_set(names: Seq<String>) -> Set<Seq<char>> {
    names.map_values(|s: String| normalized_name(s@)).to_set()
}

/// Builds the optional message filter from the optional user-supplied list
/// of names: no list means no filter at all, and a list (even an empty one)
/// becomes the set of its entries in canonical trimmed upper-case form.
pub fn build_message_filter(messages: Option<Vec<String>>) -> (r: Option<MessageFilter>)
    ensures
        r is Some <==> messages is Some,
        r is Some ==> r.unwrap().allowed() == normalized_set(messages.unwrap()@),
{
    match messages {
        None => None,
        Some(list) => {
            let n = list.len();
            let mut names: Vec<String> = Vec::new();
            let mut i: usize = 0;
            while i < n
                invariant
                    0 <= i <= n,
                    n == list@.len(),
                    names@.map_values(|s: String| s@) =~= list@.subrange(0, i as int).map_values(
                        |s: String| normalized_name(s@),
                    ),
                decreases n - i,
            {
                let canon = normalize_name(list[i].as_str());
                names.push(canon);
                proof {
                    assert(list@.subrange(0, i + 1).drop_last() =~= list@.subrange(0, i as int));
                    assert(list@.subrange(0, i + 1).map_values(|s: String| normalized_name(s@))
                        =~= list@.subrange(0, i as int).map_values(
                        |s: String| normalized_name(s@),
                    ).push(normalized_name(list@[i as int]@)));
                }
                i = i + 1;
            }
            proof {
                assert(list@.subrange(0, n as int) =~= list@);
            }
            Some(MessageFilter { names })
        },
    }
}

/// Display eligibility of a message-type name: an absent filter admits
/// every name; a present filter admits exactly its members, so a present
/// but empty filter admits nothing.
pub open spec fn spec_should_display(filter: Option<MessageFilter>, name: Seq<char>) -> bool {
    match filter {
        None => true,
        Some(f) => f.allowed().contains(name),
    }
}

/// Decides whether a message of the given canonical type name is shown:
/// true for every name when the filter is absent, and membership in the
/// filter set when it is present.
pub fn should_display(filter: &Option<MessageFilter>, name: &str) -> (r: bool)
    ensures
        r == spec_should_display(*filter, name@),
{
    match filter {
        None => true,
        Some(f) => f.contains(name),
    }
}

/// An absent filter admits every possible type name, known or synthetic.
pub proof fn lemma_absent_filter_admits_every_name(name: Seq<char>)
    ensures
        spec_should_display(None, name),
{
}

/// A present but empty filter rejects every possible type name: built from
/// an empty list of names, the filter exists yet admits nothing.
pub proof fn lemma_empty_filter_rejects_every_name(f: MessageFilter, name: Seq<char>)
    requires
        f.allowed() == normalized_set(Seq::<String>::empty()),
    ensures
        !spec_should_display(Some(f), name),
{
    assert(Seq::<String>::empty().map_values(|s: String| normalized_name(s@)) =~= Seq::<
        Seq<char>,
    >::empty());
    assert(normalized_set(Seq::<String>::empty()) =~= Set::<Seq<char>>::empty());
}

} // verus!
