use vstd::prelude::*;

use crate::difficulty::DifficultyKind;

verus! {

/// The best score of one user at one difficulty.
#[derive(Debug, Clone, PartialEq, Eq)]
pub struct Achivement {
    pub username: String,
    pub difficulty: DifficultyKind,
    pub score: usize,
}

impl Achivement {
    /// A copy of this record.
    pub fn cloned(&self) -> (r: Self)
        ensures
            r == *self,
    {
        Achivement {
            username: self.username.clone(),
            difficulty: self.difficulty,
            score: self.score,
        }
    }
}

/// The records of one user.
#[derive(Debug, Clone, PartialEq, Eq)]
pub struct AchivementGroup {
    pub username: String,
    pub achivements: Vec<Achivement>,
}

/// Records grouped by user: one group per user. A vector of groups rather
/// than a hash map keyed by user name: the hash-map model that proofs can use
/// covers keys of primitive types only, so a map keyed by `String` would leave
/// what it holds unproved.
pub type AchivementMap = Vec<AchivementGroup>;

/// Holds of the records of the user named `name`.
pub open spec fn of_user(name: Seq<char>) -> spec_fn(Achivement) -> bool {
    |a: Achivement| a.username@ == name
}

/// The user names of a list of groups, in order.
pub open spec fn group_names(groups: Seq<AchivementGroup>) -> Seq<Seq<char>> {
    groups.map_values(|g: AchivementGroup| g.username@)
}

/// `groups` holds one group for each user of `list`, with that user's records
/// in the order of `list`.
pub open spec fn is_grouping(groups: Seq<AchivementGroup>, list: Seq<Achivement>) -> bool {
    &&& forall|i: int, j: int|
        0 <= i < j < groups.len() ==> groups[i].username@ != groups[j].username@
    &&& forall|i: int|
        0 <= i < groups.len() ==> (#[trigger] groups[i]).achivements@ == list.filter(
            of_user(groups[i].username@),
        ) && groups[i].achivements@.len() > 0
    &&& forall|k: int|
        0 <= k < list.len() ==> group_names(groups).contains(#[trigger] list[k].username@)
}

/// The records of the user named `name`, in order.
pub fn achivements_of(achivements: &[Achivement], name: &String) -> (r: Vec<Achivement>)
    ensures
        r@ == achivements@.filter(of_user(name@)),
{
    let mut r: Vec<Achivement> = Vec::new();
    let mut i: usize = 0;
    while i < achivements.len()
        invariant
            i <= achivements@.len(),
            r@ == achivements@.subrange(0, i as int).filter(of_user(name@)),
        decreases achivements@.len() - i,
    {
        proof {
            let s = achivements@.subrange(0, i as int);
            assert(achivements@.subrange(0, i + 1) =~= s.push(achivements@[i as int]));
            s.lemma_filter_push(achivements@[i as int], of_user(name@));
        }
        if achivements[i].username == *name {
            r.push(achivements[i].cloned());
        }
        i += 1;
    }
    assert(achivements@.subrange(0, i as int) =~= achivements@);
    r
}

/// The user names of a list of records, in order.
pub open spec fn names_of(list: Seq<Achivement>) -> Seq<Seq<char>> {
    list.map_values(|a: Achivement| a.username@)
}

/// The character sequences of a list of strings.
pub open spec fn views_of(list: Seq<String>) -> Seq<Seq<char>> {
    list.map_values(|s: String| s@)
}

/// Whether `names` holds `name`.
fn has_name(names: &Vec<String>, name: &String) -> (r: bool)
    ensures
        r == views_of(names@).contains(name@),
{
    let mut j: usize = 0;
    while j < names.len()
        invariant
            j <= names@.len(),
            forall|a: int| 0 <= a < j ==> names@[a]@ != name@,
        decreases names@.len() - j,
    {
        if names[j] == *name {
            assert(views_of(names@)[j as int] == name@);
            return true;
        }
        j += 1;
    }
    proof {
        if views_of(names@).contains(name@) {
            let a = choose|a: int| 0 <= a < names@.len() && views_of(names@)[a] == name@;
            assert(names@[a]@ == name@);
        }
    }
    false
}

/// The distinct user names of `achivements`, in order of first appearance.
fn usernames(achivements: &[Achivement]) -> (r: Vec<String>)
    ensures
        views_of(r@).no_duplicates(),
        forall|n: Seq<char>| #[trigger]
            views_of(r@).contains(n) <==> names_of(achivements@).contains(n),
{
    broadcast use vstd::seq_lib::lemma_seq_contains_after_push;

    let mut r: Vec<String> = Vec::new();
    let mut i: usize = 0;
    while i < achivements.len()
        invariant
            i <= achivements@.len(),
            views_of(r@).no_duplicates(),
            forall|n: Seq<char>| #[trigger]
                views_of(r@).contains(n) <==> names_of(achivements@.subrange(0, i as int)).contains(n),
        decreases achivements@.len() - i,
    {
        let name = &achivements[i].username;
        let ghost old_views = views_of(r@);
        assert(names_of(achivements@.subrange(0, i + 1)) =~= names_of(
            achivements@.subrange(0, i as int),
        ).push(name@));
        let found = has_name(&r, name);
        if !found {
            r.push(name.clone());
            assert(views_of(r@) =~= old_views.push(name@));
            assert forall|a: int, b: int|
                0 <= a < b < views_of(r@).len() implies views_of(r@)[a] != views_of(r@)[b] by {
                if b == old_views.len() {
                    assert(old_views.contains(old_views[a]));
                } else {
                    assert(old_views[a] == views_of(r@)[a] && old_views[b] == views_of(r@)[b]);
                }
            }
        }
        assert forall|n: Seq<char>|
            views_of(r@).contains(n) <==> names_of(achivements@.subrange(0, i + 1)).contains(
                n,
            ) by {
            let prefix = names_of(achivements@.subrange(0, i as int));
            assert(old_views.contains(n) <==> prefix.contains(n));
            vstd::seq_lib::lemma_seq_contains_after_push(prefix, name@, n);
            if !found {
                vstd::seq_lib::lemma_seq_contains_after_push(old_views, name@, n);
            }
        }
        i += 1;
    }
    assert(achivements@.subrange(0, i as int) =~= achivements@);
    r
}

/// Groups records by user.
pub fn achivements2map(achivements: &[Achivement]) -> (r: AchivementMap)
    ensures
        is_grouping(r@, achivements@),
{
    let names = usernames(achivements);
    let mut r: AchivementMap = Vec::new();
    let mut i: usize = 0;
    while i < names.len()
        invariant
            i <= names@.len(),
            r@.len() == i,
            forall|a: int| 0 <= a < i ==> (#[trigger] r@[a]).username@ == views_of(names@)[a],
            forall|a: int|
                0 <= a < i ==> (#[trigger] r@[a]).achivements@ == achivements@.filter(
                    of_user(r@[a].username@),
                ),
            views_of(names@).no_duplicates(),
            forall|n: Seq<char>| #[trigger]
                views_of(names@).contains(n) <==> names_of(achivements@).contains(n),
        decreases names@.len() - i,
    {
        let group = achivements_of(achivements, &names[i]);
        r.push(AchivementGroup { username: names[i].clone(), achivements: group });
        i += 1;
    }
    proof {
        let vn = views_of(names@);
        assert forall|a: int, b: int|
            0 <= a < b < r.len() implies r@[a].username@ != r@[b].username@ by {
            assert(r@[a].username@ == vn[a] && r@[b].username@ == vn[b]);
        }
        assert forall|a: int| 0 <= a < r.len() implies (#[trigger] r@[a]).achivements@.len() > 0 by {
            assert(vn.contains(vn[a]));
            assert(names_of(achivements@).contains(vn[a]));
            let k = choose|k: int|
                0 <= k < achivements@.len() && names_of(achivements@)[k] == vn[a];
            achivements@.lemma_filter_contains_rev(of_user(vn[a]), achivements@[k]);
            assert(achivements@.contains(achivements@[k]));
        }
        assert(group_names(r@) =~= vn);
        assert forall|k: int| 0 <= k < achivements@.len() implies group_names(r@).contains(
            #[trigger] achivements@[k].username@,
        ) by {
            assert(names_of(achivements@)[k] == achivements@[k].username@);
        }
    }
    r
}

} // verus!
