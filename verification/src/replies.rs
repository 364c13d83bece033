//! Script replies from the key-value store, as plain values: a reply is
//! either a list of items (each item a string, or something else) or any
//! other reply.
use vstd::prelude::*;
use crate::text::{join_seq, string_views, join_strings};

verus! {

/// One reply of a script call.
pub enum Reply {
    /// A list reply; `None` stands for an item that is not a string.
    Bulk(Vec<Option<String>>),
    /// Any other reply (nil, integer, status, ...).
    Other,
}

/// The string items of a list reply, in order.
pub open spec fn present_strings(items: Seq<Option<String>>) -> Seq<Seq<char>>
    decreases items.len(),
{
    if items.len() == 0 {
        Seq::empty()
    } else {
        let rest = present_strings(items.drop_last());
        match items.last() {
            Some(s) => rest.push(s@),
            None => rest,
        }
    }
}

/// The string items of each reply; a reply that is not a list gives no item.
pub open spec fn reply_rows(replies: Seq<Reply>) -> Seq<Seq<Seq<char>>> {
    replies.map_values(|r: Reply| match r {
        Reply::Bulk(items) => present_strings(items@),
        Reply::Other => Seq::empty(),
    })
}

/// The list replies joined, each with its string items separated by commas;
/// replies that are not lists are left out.
pub open spec fn joined_rows(replies: Seq<Reply>) -> Seq<Seq<char>>
    decreases replies.len(),
{
    if replies.len() == 0 {
        Seq::empty()
    } else {
        let rest = joined_rows(replies.drop_last());
        match replies.last() {
            Reply::Bulk(items) => rest.push(join_seq(present_strings(items@), ","@)),
            Reply::Other => rest,
        }
    }
}

/// The string items of a list reply.
pub fn present_items(items: &Vec<Option<String>>) -> (out: Vec<String>)
    ensures
        string_views(out@) == present_strings(items@),
{
    let mut out: Vec<String> = Vec::new();
    let mut i: usize = 0;
    while i < items.len()
        invariant
            i <= items.len(),
            string_views(out@) == present_strings(items@.take(i as int)),
        decreases items.len() - i,
    {
        assert(items@.take(i + 1).drop_last() =~= items@.take(i as int));
        match &items[i] {
            Some(s) => {
                out.push(s.clone());
                assert(string_views(out@) =~= present_strings(items@.take(i as int)).push(s@));
            },
            None => {},
        }
        i = i + 1;
    }
    assert(items@.take(items.len() as int) =~= items@);
    out
}

/// The string items of every reply, one row per reply.
pub fn rows_of_replies(replies: &Vec<Reply>) -> (rows: Vec<Vec<String>>)
    ensures
        rows@.len() == replies@.len(),
        forall|n: int| 0 <= n < rows@.len() ==> string_views(#[trigger] rows@[n]@) == reply_rows(replies@)[n],
{
    let mut rows: Vec<Vec<String>> = Vec::new();
    let mut i: usize = 0;
    while i < replies.len()
        invariant
            i <= replies.len(),
            rows@.len() == i,
            forall|n: int| 0 <= n < i ==> string_views(#[trigger] rows@[n]@) == reply_rows(replies@)[n],
        decreases replies.len() - i,
    {
        match &replies[i] {
            Reply::Bulk(items) => {
                let row = present_items(items);
                rows.push(row);
            },
            Reply::Other => {
                let row: Vec<String> = Vec::new();
                assert(string_views(row@) =~= Seq::<Seq<char>>::empty());
                rows.push(row);
            },
        }
        i = i + 1;
    }
    rows
}

/// The list replies, each joined with commas; other replies are skipped.
pub fn joined_replies(replies: &Vec<Reply>) -> (out: Vec<String>)
    ensures
        string_views(out@) == joined_rows(replies@),
{
    let mut out: Vec<String> = Vec::new();
    let mut i: usize = 0;
    while i < replies.len()
        invariant
            i <= replies.len(),
            string_views(out@) == joined_rows(replies@.take(i as int)),
        decreases replies.len() - i,
    {
        assert(replies@.take(i + 1).drop_last() =~= replies@.take(i as int));
        match &replies[i] {
            Reply::Bulk(items) => {
                let row = present_items(items);
                let line = join_strings(&row, ",");
                out.push(line);
                assert(string_views(out@) =~= joined_rows(replies@.take(i as int)).push(line@));
            },
            Reply::Other => {},
        }
        i = i + 1;
    }
    assert(replies@.take(replies.len() as int) =~= replies@);
    out
}

} // verus!
