//! The project store: one directory path per line, the one added last
//! first. A path is the line as it stands: two paths are the same record
//! only where they are the same text, white space included.

use vstd::prelude::*;
use crate::text::{
    all_lines, carriage_return, has_char, is_line, join_lines, join_records, lines, newline,
    split_lines, views,
};
use crate::text::{lemma_lines_are_lines, lemma_lines_of_join};

verus! {

/// The records `rs` without those equal to `p`, in their order.
pub open spec fn without(rs: Seq<Seq<char>>, p: Seq<char>) -> Seq<Seq<char>>
    decreases rs.len(),
{
    if rs.len() == 0 {
        Seq::empty()
    } else if rs.last() == p {
        without(rs.drop_last(), p)
    } else {
        without(rs.drop_last(), p).push(rs.last())
    }
}

/// The store `content` with `p` as its first record and nowhere else.
pub open spec fn moved_to_front(content: Seq<char>, p: Seq<char>) -> Seq<char> {
    join_lines(seq![p] + without(lines(content), p))
}

/// The store `content` without the record `p`.
pub open spec fn removed(content: Seq<char>, p: Seq<char>) -> Seq<char> {
    join_lines(without(lines(content), p))
}

/// What is left after taking `p` out holds no `p`, and only lines where
/// `rs` held only lines.
pub(crate) proof fn lemma_without_holds_no(rs: Seq<Seq<char>>, p: Seq<char>)
    ensures
        forall|i: int| 0 <= i < without(rs, p).len() ==> #[trigger] without(rs, p)[i] != p,
        all_lines(rs) ==> all_lines(without(rs, p)),
    decreases rs.len(),
{
    if rs.len() > 0 {
        let front = rs.drop_last();
        lemma_without_holds_no(front, p);
        if all_lines(rs) {
            assert forall|i: int| 0 <= i < front.len() implies is_line(#[trigger] front[i]) by {
                assert(front[i] == rs[i]);
            }
            assert(is_line(rs[rs.len() - 1]));
        }
    }
}

/// Taking `p` out of records that hold none of it changes nothing.
pub(crate) proof fn lemma_without_absent(rs: Seq<Seq<char>>, p: Seq<char>)
    requires
        forall|i: int| 0 <= i < rs.len() ==> #[trigger] rs[i] != p,
    ensures
        without(rs, p) == rs,
    decreases rs.len(),
{
    if rs.len() > 0 {
        let front = rs.drop_last();
        assert forall|i: int| 0 <= i < front.len() implies #[trigger] front[i] != p by {
            assert(front[i] == rs[i]);
        }
        lemma_without_absent(front, p);
        assert(rs[rs.len() - 1] != p);
        assert(front.push(rs.last()) =~= rs);
    }
}

/// Taking `p` out of `[p]` followed by `rs` is taking it out of `rs`.
pub(crate) proof fn lemma_without_front(rs: Seq<Seq<char>>, p: Seq<char>)
    ensures
        without(seq![p] + rs, p) == without(rs, p),
    decreases rs.len(),
{
    let all = seq![p] + rs;
    if rs.len() == 0 {
        assert(all.drop_last() =~= Seq::<Seq<char>>::empty());
        assert(all.last() == p);
        assert(without(all.drop_last(), p) =~= Seq::<Seq<char>>::empty());
        assert(without(all, p) == without(all.drop_last(), p));
    } else {
        assert(all.drop_last() =~= seq![p] + rs.drop_last());
        assert(all.last() == rs.last());
        lemma_without_front(rs.drop_last(), p);
        assert(without(all.drop_last(), p) == without(rs.drop_last(), p));
    }
}

/// Reading back a store whose first line is empty skips that line.
proof fn lemma_lines_after_empty_line(rs: Seq<Seq<char>>)
    requires
        all_lines(rs),
    ensures
        lines(join_lines(seq![Seq::<char>::empty()] + rs)) == rs,
{
    let all = seq![Seq::<char>::empty()] + rs;
    if rs.len() == 0 {
        assert(all.len() == 1);
    } else {
        let s = join_lines(all);
        assert(all.drop_first() =~= rs);
        assert(all[0].len() == 0);
        assert(s =~= seq![newline()] + join_lines(rs));
        assert(s[0] == newline());
        assert(s.take(0) =~= Seq::<char>::empty());
        assert(s.skip(1) =~= join_lines(rs));
        lemma_lines_of_join(rs);
    }
}

/// After adding a path that is one line, the path is the first record of
/// the store and no other record equals it; the other records are those
/// the store had, in their order and as they stood.
pub proof fn lemma_append_moves_to_front(content: Seq<char>, p: Seq<char>)
    requires
        is_line(p),
    ensures
        lines(moved_to_front(content, p)) == seq![p] + without(lines(content), p),
        forall|i: int|
            0 <= i < without(lines(content), p).len() ==> #[trigger] without(
                lines(content),
                p,
            )[i] != p,
{
    let rest = without(lines(content), p);
    lemma_lines_are_lines(content);
    lemma_without_holds_no(lines(content), p);
    let all = seq![p] + rest;
    assert forall|k: int| 0 <= k < all.len() implies is_line(#[trigger] all[k]) by {
        if k > 0 {
            assert(all[k] == rest[k - 1]);
        }
    }
    lemma_lines_of_join(all);
}

/// After removing a path no record of the store equals it; the other
/// records are those the store had, in their order and as they stood.
pub proof fn lemma_delete_takes_out(content: Seq<char>, p: Seq<char>)
    ensures
        lines(removed(content, p)) == without(lines(content), p),
        forall|i: int|
            0 <= i < without(lines(content), p).len() ==> #[trigger] without(lines(content), p)[i]
                != p,
{
    lemma_lines_are_lines(content);
    lemma_without_holds_no(lines(content), p);
    lemma_lines_of_join(without(lines(content), p));
}

/// Whether `p` fits on one line of a store: it holds no line break and
/// does not end in a carriage return.
pub open spec fn fits_one_line(p: Seq<char>) -> bool {
    &&& !has_char(p, newline())
    &&& p.len() > 0 ==> p.last() != carriage_return()
}

/// Adding a path that is already first changes nothing: adding `p` twice in
/// a row leaves the store as adding it once does. This holds of every store
/// and of every path that fits on one line.
pub proof fn lemma_append_twice(content: Seq<char>, p: Seq<char>)
    requires
        fits_one_line(p),
    ensures
        moved_to_front(moved_to_front(content, p), p) == moved_to_front(content, p),
{
    let rest = without(lines(content), p);
    lemma_lines_are_lines(content);
    lemma_without_holds_no(lines(content), p);
    lemma_without_absent(rest, p);
    let once = moved_to_front(content, p);
    if p.len() == 0 {
        assert(p =~= Seq::<char>::empty());
        lemma_lines_after_empty_line(rest);
        assert(lines(once) == rest);
    } else {
        let all = seq![p] + rest;
        assert forall|k: int| 0 <= k < all.len() implies is_line(#[trigger] all[k]) by {
            if k > 0 {
                assert(all[k] == rest[k - 1]);
            }
        }
        lemma_lines_of_join(all);
        lemma_without_front(rest, p);
        assert(lines(once) == all);
    }
    assert(without(lines(once), p) == rest);
}

/// The strings of `rs` that differ from `p`, in their order.
fn others(rs: &Vec<String>, p: &String) -> (out: Vec<String>)
    ensures
        views(out@) == without(views(rs@), p@),
{
    let mut out: Vec<String> = Vec::new();
    let mut i: usize = 0;
    proof {
        assert(views(rs@).take(0) =~= Seq::<Seq<char>>::empty());
    }
    while i < rs.len()
        invariant
            i <= rs.len(),
            views(out@) == without(views(rs@).take(i as int), p@),
        decreases rs.len() - i,
    {
        let ghost before = views(out@);
        proof {
            assert(views(rs@).take(i + 1).drop_last() =~= views(rs@).take(i as int));
            assert(views(rs@).take(i + 1).last() == rs@[i as int]@);
        }
        if rs[i] != *p {
            out.push(rs[i].clone());
            proof {
                assert(views(out@) =~= before.push(rs@[i as int]@));
            }
        }
        i += 1;
    }
    proof {
        assert(views(rs@).take(rs.len() as int) =~= views(rs@));
    }
    out
}

/// The store with `url` as its first record. A record equal to `url` moves
/// to the front; it is not written twice. Records are compared as they
/// stand, and the other records are written as they stood.
pub fn append_to_first_project(content: &str, url: &str) -> (out: String)
    ensures
        out@ == moved_to_front(content@, url@),
{
    let path = url.to_owned();
    let rest = others(&split_lines(content), &path);
    let mut all: Vec<String> = Vec::new();
    all.push(path);
    let mut i: usize = 0;
    proof {
        assert(views(all@) =~= seq![url@] + views(rest@).take(0));
    }
    while i < rest.len()
        invariant
            i <= rest.len(),
            views(all@) == seq![url@] + views(rest@).take(i as int),
        decreases rest.len() - i,
    {
        let ghost before = views(all@);
        all.push(rest[i].clone());
        proof {
            assert(views(all@) =~= before.push(rest@[i as int]@));
            assert(views(all@) =~= seq![url@] + views(rest@).take(i + 1));
        }
        i += 1;
    }
    proof {
        assert(views(rest@).take(rest.len() as int) =~= views(rest@));
    }
    join_records(&all)
}

/// The store without the records equal to `path`. Records are compared as
/// they stand, and the other records are written as they stood.
pub fn delete_project(content: &str, path: &str) -> (out: String)
    ensures
        out@ == removed(content@, path@),
{
    let gone = path.to_owned();
    join_records(&others(&split_lines(content), &gone))
}

} // verus!
