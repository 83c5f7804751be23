use vstd::prelude::*;

verus! {

/// The first position at which `path` occurs among `paths`, if any.
pub open spec fn position(paths: Seq<Seq<char>>, path: Seq<char>) -> Option<nat>
    decreases paths.len(),
{
    if paths.len() == 0 {
        None
    } else if paths[0] == path {
        Some(0)
    } else {
        match position(paths.drop_first(), path) {
            Some(k) => Some(k + 1),
            None => None,
        }
    }
}

/// A position that is found is the first at which the path occurs; none is
/// found only if the path does not occur.
pub proof fn lemma_position(paths: Seq<Seq<char>>, path: Seq<char>)
    ensures
        position(paths, path) matches Some(k) ==> k < paths.len() && paths[k as int] == path
            && forall|j: int| 0 <= j < k ==> paths[j] != path,
        position(paths, path) is None ==> forall|j: int| 0 <= j < paths.len() ==> paths[j] != path,
    decreases paths.len(),
{
    if paths.len() > 0 && paths[0] != path {
        lemma_position(paths.drop_first(), path);
        let rest = paths.drop_first();
        assert forall|j: int| 1 <= j < paths.len() implies paths[j] == rest[j - 1] by {}
    }
}

/// The first occurrence of a path is its position.
pub proof fn lemma_position_found(paths: Seq<Seq<char>>, path: Seq<char>, k: int)
    requires
        0 <= k < paths.len(),
        paths[k] == path,
        forall|j: int| 0 <= j < k ==> paths[j] != path,
    ensures
        position(paths, path) == Some(k as nat),
    decreases paths.len(),
{
    if k > 0 {
        let rest = paths.drop_first();
        assert forall|j: int| 0 <= j < k - 1 implies rest[j] != path by {
            assert(rest[j] == paths[j + 1]);
        }
        lemma_position_found(rest, path, k - 1);
    }
}

} // verus!
