//! The layered source: an ordered list of backing roots, read in priority
//! order. A read takes the first root that has the file; a directory listing
//! gathers the entries of every root that can list the directory.

use vstd::prelude::*;

verus! {

/// Why a source could not give what was asked.
pub enum SourceError {
    /// The root has no such file or directory.
    NotFound,
    /// The root failed for another reason, described by the message.
    Other(String),
    /// No root is configured: every one of them is absent.
    NoValidSource,
}

/// What one root of a layered source gave for a request.
pub enum RootResult<T> {
    /// The root is not configured (its directory or archive is missing).
    Absent,
    /// The root is configured but could not give what was asked.
    Failed(SourceError),
    /// The root gave this.
    Found(T),
}

/// What the first root, in priority order, that gave something gave.
pub open spec fn first_found<T>(rs: Seq<RootResult<T>>) -> Option<T>
    decreases rs.len(),
{
    if rs.len() == 0 {
        None
    } else {
        match rs[0] {
            RootResult::Found(v) => Some(v),
            _ => first_found(rs.drop_first()),
        }
    }
}

/// The error of the last root that failed.
pub open spec fn last_error<T>(rs: Seq<RootResult<T>>) -> Option<SourceError>
    decreases rs.len(),
{
    if rs.len() == 0 {
        None
    } else {
        match last_error(rs.drop_first()) {
            Some(e) => Some(e),
            None => match rs[0] {
                RootResult::Failed(e) => Some(e),
                _ => None,
            },
        }
    }
}

/// The error of a layered request that no root answered: the last error
/// seen, or `NoValidSource` when every root is absent.
pub open spec fn layered_error<T>(rs: Seq<RootResult<T>>) -> SourceError {
    match last_error(rs) {
        Some(e) => e,
        None => SourceError::NoValidSource,
    }
}

/// A layered read: the first root that has the file wins.
pub open spec fn layered_read<T>(rs: Seq<RootResult<T>>) -> Result<T, SourceError> {
    match first_found(rs) {
        Some(v) => Ok(v),
        None => Err(layered_error(rs)),
    }
}

/// The entries of every root that listed the directory, root after root in
/// priority order: an entry that several roots list is there once per root.
pub open spec fn all_listed<E>(rs: Seq<RootResult<Vec<E>>>) -> Seq<E>
    decreases rs.len(),
{
    if rs.len() == 0 {
        Seq::empty()
    } else {
        let head = match rs[0] {
            RootResult::Found(v) => v@,
            _ => Seq::empty(),
        };
        head + all_listed(rs.drop_first())
    }
}

/// A layered listing: what every root that could list the directory listed,
/// joined end to end.
pub open spec fn layered_list<E>(rs: Seq<RootResult<Vec<E>>>) -> Result<Seq<E>, SourceError> {
    match first_found(rs) {
        Some(_) => Ok(all_listed(rs)),
        None => Err(layered_error(rs)),
    }
}

/// Reads from the roots of a layered source, given in priority order, what
/// each of them gave: the first root that has the file wins; when none has
/// it, the last error is returned, or `NoValidSource` when every root is
/// absent.
pub fn read_layered<T>(roots: Vec<RootResult<T>>) -> (r: Result<T, SourceError>)
    ensures
        r == layered_read(roots@),
{
    let ghost all = roots@;
    let mut rest = roots;
    let mut last: Option<SourceError> = None;
    while rest.len() > 0
        invariant
            all == roots@,
            first_found(all) == first_found(rest@),
            last_error(all) == match last_error(rest@) {
                Some(e) => Some(e),
                None => last,
            },
        decreases rest.len(),
    {
        let ghost before = rest@;
        let head = rest.remove(0);
        assert(rest@ == before.drop_first());
        match head {
            RootResult::Found(v) => {
                assert(first_found(before) == Some(v));
                return Ok(v);
            },
            RootResult::Failed(e) => {
                last = Some(e);
            },
            RootResult::Absent => {},
        }
    }
    match last {
        Some(e) => Err(e),
        None => Err(SourceError::NoValidSource),
    }
}

/// Lists a directory over the roots of a layered source, given in priority
/// order with what each of them listed: the entries of every root that
/// could list it, joined end to end in priority order (an entry that several
/// roots list comes once per root; see [`unique_names`]). When no root could, the last error is
/// returned, or `NoValidSource` when every root is absent.
pub fn list_layered<E>(roots: Vec<RootResult<Vec<E>>>) -> (r: Result<Vec<E>, SourceError>)
    ensures
        match layered_list(roots@) {
            Ok(entries) => r is Ok && r->Ok_0@ == entries,
            Err(e) => r == Err::<Vec<E>, SourceError>(e),
        },
{
    let ghost all = roots@;
    let mut rest = roots;
    let mut last: Option<SourceError> = None;
    let mut listed: Vec<E> = Vec::new();
    let mut any = false;
    while rest.len() > 0
        invariant
            first_found(all) is Some <==> (any || first_found(rest@) is Some),
            all_listed(all) == listed@ + all_listed(rest@),
            last_error(all) == match last_error(rest@) {
                Some(e) => Some(e),
                None => last,
            },
        decreases rest.len(),
    {
        let ghost before = rest@;
        let head = rest.remove(0);
        assert(rest@ == before.drop_first());
        match head {
            RootResult::Found(mut v) => {
                let ghost vv = v@;
                listed.append(&mut v);
                any = true;
                assert(all_listed(before) == vv + all_listed(rest@));
            },
            RootResult::Failed(e) => {
                last = Some(e);
                assert(all_listed(before) == Seq::<E>::empty() + all_listed(rest@));
            },
            RootResult::Absent => {
                assert(all_listed(before) == Seq::<E>::empty() + all_listed(rest@));
            },
        }
    }
    assert(listed@ + all_listed(rest@) == listed@);
    if any {
        Ok(listed)
    } else {
        match last {
            Some(e) => Err(e),
            None => Err(SourceError::NoValidSource),
        }
    }
}

/// The names of a list of files.
pub open spec fn names(files: Seq<(String, bool)>) -> Seq<Seq<char>> {
    files.map_values(|f: (String, bool)| f.0@)
}

/// Keeps the first of each name among `files` (each a file name and whether
/// it is a directory), in order: the union of listings that may repeat a
/// name.
pub fn unique_names(files: Vec<(String, bool)>) -> (r: Vec<(String, bool)>)
    ensures
        names(r@).no_duplicates(),
        forall|i: int| 0 <= i < r@.len() ==> files@.contains(#[trigger] r@[i]),
        forall|k: int| 0 <= k < files@.len() ==> names(r@).contains(#[trigger] files@[k].0@),
{
    let ghost all = files@;
    let mut rest = files;
    let mut out: Vec<(String, bool)> = Vec::new();
    let ghost mut taken: int = 0;
    while rest.len() > 0
        invariant
            all == files@,
            0 <= taken <= all.len(),
            rest@ == all.skip(taken),
            names(out@).no_duplicates(),
            forall|i: int| 0 <= i < out@.len() ==> all.contains(#[trigger] out@[i]),
            forall|k: int| 0 <= k < taken ==> names(out@).contains(#[trigger] all[k].0@),
        decreases rest.len(),
    {
        let head = rest.remove(0);
        assert(head == all[taken]);
        assert(rest@ =~= all.skip(taken + 1));
        let mut seen = false;
        let mut i: usize = 0;
        while i < out.len()
            invariant
                i <= out@.len(),
                seen ==> names(out@).contains(head.0@),
                !seen ==> forall|m: int| 0 <= m < i ==> names(out@)[m] != head.0@,
            decreases out@.len() - i,
        {
            if out[i].0 == head.0 {
                assert(names(out@)[i as int] == head.0@);
                seen = true;
            }
            i = i + 1;
        }
        let ghost old_out = out@;
        if !seen {
            out.push(head);
            assert(names(out@) =~= names(old_out).push(head.0@));
            assert forall|i: int| 0 <= i < out@.len() implies all.contains(#[trigger] out@[i]) by {
                if i < old_out.len() {
                    assert(out@[i] == old_out[i]);
                }
            }
            assert forall|k: int| 0 <= k < taken + 1 implies names(out@).contains(
                #[trigger] all[k].0@,
            ) by {
                if k < taken {
                    let m = choose|m: int| 0 <= m < names(old_out).len() && names(old_out)[m]
                        == all[k].0@;
                    assert(names(out@)[m] == all[k].0@);
                } else {
                    assert(names(out@)[old_out.len() as int] == all[k].0@);
                }
            }
        }
        proof {
            taken = taken + 1;
        }
    }
    assert(all.skip(taken).len() == 0);
    out
}

/// A read takes the file from the first root, in priority order, that has
/// it: of two roots that both hold the id, the first wins; once the first is
/// absent, the read falls through to the second.
pub proof fn lemma_source_layering<T>(one: T, two: T, rest: Seq<RootResult<T>>)
    ensures
        layered_read(seq![RootResult::Found(one), RootResult::Found(two)] + rest) == Ok::<
            T,
            SourceError,
        >(one),
        layered_read(seq![RootResult::Absent, RootResult::Found(two)] + rest) == Ok::<
            T,
            SourceError,
        >(two),
{
    let both = seq![RootResult::Found(one), RootResult::Found(two)] + rest;
    assert(both[0] == RootResult::Found(one));
    let second = seq![RootResult::Absent, RootResult::Found(two)] + rest;
    assert(second[0] == RootResult::<T>::Absent);
    assert(second.drop_first() == seq![RootResult::Found(two)] + rest);
    assert((seq![RootResult::Found(two)] + rest)[0] == RootResult::Found(two));
    assert(first_found(seq![RootResult::Found(two)] + rest) == Some(two));
    assert(first_found(second) == Some(two));
}

} // verus!
