use vstd::prelude::*;

verus! {

/// No cue name occurs twice.
pub open spec fn cue_names_distinct(cues: Seq<(String, u128)>) -> bool {
    forall|i: int, j: int|
        0 <= i < j < cues.len() ==> (#[trigger] cues[i]).0@ != (#[trigger] cues[j]).0@
}

/// Cue entries seen as a map from name to timestamp.
pub open spec fn cue_map(cues: Seq<(String, u128)>) -> Map<Seq<char>, nat> {
    Map::new(
        |n: Seq<char>| exists|i: int| 0 <= i < cues.len() && #[trigger] cues[i].0@ == n,
        |n: Seq<char>| cues[choose|i: int| 0 <= i < cues.len() && #[trigger] cues[i].0@ == n].1 as nat,
    )
}

/// The map records each stored entry.
pub proof fn lemma_cue_map_at(cues: Seq<(String, u128)>, i: int)
    requires
        cue_names_distinct(cues),
        0 <= i < cues.len(),
    ensures
        cue_map(cues).contains_key(cues[i].0@),
        cue_map(cues)[cues[i].0@] == cues[i].1 as nat,
{
    let n = cues[i].0@;
    assert(cue_map(cues).dom().contains(n));
    let j = choose|j: int| 0 <= j < cues.len() && #[trigger] cues[j].0@ == n;
    if j < i {
        assert(cues[j].0@ != cues[i].0@);
    } else if j > i {
        assert(cues[i].0@ != cues[j].0@);
    }
}

/// Appending an entry with a new name inserts it into the map.
pub proof fn lemma_cue_map_insert_new(cues: Seq<(String, u128)>, name: String, t: u128)
    requires
        cue_names_distinct(cues),
        forall|k: int| 0 <= k < cues.len() ==> (#[trigger] cues[k]).0@ != name@,
    ensures
        cue_names_distinct(cues.push((name, t))),
        cue_map(cues.push((name, t))) == cue_map(cues).insert(name@, t as nat),
{
    let new = cues.push((name, t));
    assert(cue_names_distinct(new));
    assert forall|n: Seq<char>| #[trigger] cue_map(new).contains_key(n) == cue_map(cues).insert(name@, t as nat).contains_key(n) by {
        if cue_map(cues).contains_key(n) {
            let j = choose|j: int| 0 <= j < cues.len() && #[trigger] cues[j].0@ == n;
            assert(new[j].0@ == n);
        }
        if cue_map(new).contains_key(n) && n != name@ {
            let j = choose|j: int| 0 <= j < new.len() && #[trigger] new[j].0@ == n;
            assert(cues[j].0@ == n);
        }
        if n == name@ {
            assert(new[cues.len() as int].0@ == n);
        }
    }
    assert forall|n: Seq<char>| #[trigger] cue_map(new).contains_key(n) implies cue_map(new)[n] == cue_map(cues).insert(name@, t as nat)[n] by {
        let j = choose|j: int| 0 <= j < new.len() && #[trigger] new[j].0@ == n;
        lemma_cue_map_at(new, j);
        if n != name@ {
            lemma_cue_map_at(cues, j);
        }
    }
    assert(cue_map(new) =~= cue_map(cues).insert(name@, t as nat));
}

/// Overwriting the entry of an existing name updates the map.
pub proof fn lemma_cue_map_replace(cues: Seq<(String, u128)>, i: int, name: String, t: u128)
    requires
        cue_names_distinct(cues),
        0 <= i < cues.len(),
        cues[i].0@ == name@,
    ensures
        cue_names_distinct(cues.update(i, (name, t))),
        cue_map(cues.update(i, (name, t))) == cue_map(cues).insert(name@, t as nat),
{
    let new = cues.update(i, (name, t));
    assert(cue_names_distinct(new));
    assert forall|n: Seq<char>| #[trigger] cue_map(new).contains_key(n) == cue_map(cues).insert(name@, t as nat).contains_key(n) by {
        if cue_map(cues).contains_key(n) {
            let j = choose|j: int| 0 <= j < cues.len() && #[trigger] cues[j].0@ == n;
            assert(new[j].0@ == n);
        }
        if cue_map(new).contains_key(n) {
            let j = choose|j: int| 0 <= j < new.len() && #[trigger] new[j].0@ == n;
            assert(cues[j].0@ == n);
        }
        if n == name@ {
            assert(new[i].0@ == n);
        }
    }
    assert forall|n: Seq<char>| #[trigger] cue_map(new).contains_key(n) implies cue_map(new)[n] == cue_map(cues).insert(name@, t as nat)[n] by {
        let j = choose|j: int| 0 <= j < new.len() && #[trigger] new[j].0@ == n;
        lemma_cue_map_at(new, j);
        if n != name@ {
            lemma_cue_map_at(cues, j);
        }
    }
    assert(cue_map(new) =~= cue_map(cues).insert(name@, t as nat));
}

/// An owned copy of `s`.
pub(crate) fn owned_string(s: &str) -> (r: String)
    ensures
        r@ == s@,
{
    let r = s.to_string();
    proof {
        vstd::string::to_string_from_display_ensures_for_str(s, r);
    }
    r
}

} // verus!
