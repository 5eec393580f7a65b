//! Child discovery: a node's direct children, read from its contents region
//! or, when that shows nothing, from a flat scan of every tree item on the page.
use vstd::prelude::*;
use vstd::string::StrSliceExecFns;
use crate::text::text_eq;

verus! {

pub open spec fn is_digit(c: char) -> bool {
    '0' <= c && c <= '9'
}

/// The number written by the decimal digits `s`.
pub open spec fn digits_value(s: Seq<char>) -> int
    decreases s.len(),
{
    if s.len() == 0 {
        0
    } else {
        digits_value(s.drop_last()) * 10 + (s.last() as int - '0' as int)
    }
}

/// Whether every character of `s` is a decimal digit.
pub open spec fn all_digits(s: Seq<char>) -> bool {
    forall|i: int| 0 <= i < s.len() ==> is_digit(#[trigger] s[i])
}

/// How many characters of `s` a leading sign takes: 1 or 0.
pub open spec fn sign_len(s: Seq<char>) -> int {
    if s.len() > 0 && (s[0] == '-' || s[0] == '+') {
        1
    } else {
        0
    }
}

/// The number a level attribute denotes as a 32-bit integer: an optional sign
/// followed by at least one decimal digit and nothing else, within range.
pub open spec fn level_value(s: Seq<char>) -> Option<i32> {
    let body = s.subrange(sign_len(s), s.len() as int);
    let v = if s.len() > 0 && s[0] == '-' {
        -digits_value(body)
    } else {
        digits_value(body)
    };
    if body.len() == 0 || !all_digits(body) {
        None
    } else if i32::MIN <= v <= i32::MAX {
        Some(v as i32)
    } else {
        None
    }
}

/// A bound just past every magnitude an `i32` can have.
const LEVEL_CAP: i64 = 2147483649;

/// Reads a level attribute as a 32-bit integer.
pub fn parse_level(s: &str) -> (r: Option<i32>)
    ensures
        r == level_value(s@),
{
    let n = s.unicode_len();
    let mut start: usize = 0;
    let mut neg = false;
    if n > 0 {
        let c = s.get_char(0);
        if c == '-' || c == '+' {
            start = 1;
            neg = c == '-';
        }
    }
    let ghost body = s@.subrange(start as int, n as int);
    assert(start == sign_len(s@));
    if start == n {
        return None;
    }
    let mut acc: i64 = 0;
    let mut i: usize = start;
    while i < n
        invariant
            n == s@.len(),
            start <= i <= n,
            body == s@.subrange(start as int, n as int),
            start == sign_len(s@),
            forall|k: int| start <= k < i ==> is_digit(#[trigger] s@[k]),
            0 <= acc <= LEVEL_CAP,
            acc == if digits_value(s@.subrange(start as int, i as int)) < LEVEL_CAP {
                digits_value(s@.subrange(start as int, i as int))
            } else {
                LEVEL_CAP as int
            },
            digits_value(s@.subrange(start as int, i as int)) >= 0,
        decreases n - i,
    {
        let c = s.get_char(i);
        if !('0' <= c && c <= '9') {
            assert(!is_digit(body[i - start]));
            assert(!all_digits(body));
            return None;
        }
        let d = (c as u32 - '0' as u32) as i64;
        let ghost prev = digits_value(s@.subrange(start as int, i as int));
        assert(s@.subrange(start as int, i + 1).drop_last() =~= s@.subrange(start as int, i as int));
        assert(digits_value(s@.subrange(start as int, i + 1)) == prev * 10 + d);
        if acc >= LEVEL_CAP {
            assert(prev * 10 + d >= LEVEL_CAP) by (nonlinear_arith)
                requires
                    prev >= LEVEL_CAP,
                    d >= 0,
            ;
        } else {
            assert(prev * 10 + d >= 0) by (nonlinear_arith)
                requires
                    prev >= 0,
                    d >= 0,
            ;
        }
        acc = if acc >= LEVEL_CAP || acc * 10 + d >= LEVEL_CAP {
            LEVEL_CAP
        } else {
            acc * 10 + d
        };
        i = i + 1;
    }
    assert(all_digits(body)) by {
        assert forall|k: int| 0 <= k < body.len() implies is_digit(#[trigger] body[k]) by {
            assert(body[k] == s@[k + start]);
        }
    }
    assert(s@.subrange(start as int, n as int) == body);
    if acc >= LEVEL_CAP {
        None
    } else if neg {
        Some((-acc) as i32)
    } else if acc > 2147483647 {
        None
    } else {
        Some(acc as i32)
    }
}

/// Whether a node must be toggled to show its children: unless its expansion
/// attribute reads exactly `true`.
pub fn needs_expanding(expanded: &Option<String>) -> (r: bool)
    ensures
        r == !(expanded matches Some(e) && e@ == "true"@),
{
    match expanded {
        Some(e) => !text_eq(e.as_str(), "true"),
        None => true,
    }
}

/// A tree item as read off the page: its identifier and its level attribute,
/// each `None` when the item does not carry it.
#[derive(Debug, Clone)]
pub struct TreeItem {
    pub id: Option<String>,
    pub level: Option<String>,
}

/// The identifiers found in a node's contents region, in order, leaving out
/// items without one and any that names the node itself: identifiers are
/// unique, so a node is never its own child.
pub open spec fn present_ids(ids: Seq<Option<String>>, node: Seq<char>) -> Seq<Seq<char>>
    decreases ids.len(),
{
    if ids.len() == 0 {
        Seq::empty()
    } else {
        let rest = present_ids(ids.drop_last(), node);
        match ids.last() {
            Some(id) => if id@ != node {
                rest.push(id@)
            } else {
                rest
            },
            None => rest,
        }
    }
}

/// The children that a node's contents region lists.
pub fn contents_children(node: &str, ids: &Vec<Option<String>>) -> (r: Vec<String>)
    ensures
        r@.map_values(|c: String| c@) == present_ids(ids@, node@),
        forall|j: int| 0 <= j < r.len() ==> #[trigger] r[j]@ != node@,
{
    let mut out: Vec<String> = Vec::new();
    let mut i: usize = 0;
    while i < ids.len()
        invariant
            i <= ids.len(),
            out@.map_values(|c: String| c@) == present_ids(ids@.subrange(0, i as int), node@),
            forall|j: int| 0 <= j < out.len() ==> #[trigger] out[j]@ != node@,
        decreases ids.len() - i,
    {
        assert(ids@.subrange(0, i + 1).drop_last() =~= ids@.subrange(0, i as int));
        match &ids[i] {
            Some(id) => {
                if !text_eq(id.as_str(), node) {
                    out.push(id.clone());
                }
            },
            None => {},
        }
        assert(out@.map_values(|c: String| c@) =~= present_ids(
            ids@.subrange(0, i + 1),
            node@,
        ));
        i = i + 1;
    }
    assert(ids@.subrange(0, ids.len() as int) =~= ids@);
    out
}

/// Where a flat scan stands after some items.
pub struct ScanState {
    /// The node itself has been passed.
    pub found: bool,
    /// The node's level, when its level attribute could be read.
    pub parent: Option<i32>,
    /// An item at the node's level or above ended the scan.
    pub stopped: bool,
    /// The children collected so far.
    pub out: Seq<Seq<char>>,
}

/// One item of the flat scan for the children of `node`. Items before the
/// node are passed over; after it, an item one level deeper is a child, and
/// the first item at the node's level or above ends the scan.
pub open spec fn scan_step(st: ScanState, item: TreeItem, node: Seq<char>) -> ScanState {
    if st.stopped {
        st
    } else {
        match item.id {
            None => st,
            Some(id) => if id@ == node {
                ScanState {
                    found: true,
                    parent: match item.level {
                        Some(l) => level_value(l@),
                        None => st.parent,
                    },
                    ..st
                }
            } else if !st.found {
                st
            } else {
                match (st.parent, item.level) {
                    (Some(p), Some(l)) => match level_value(l@) {
                        Some(c) => if c as int == p as int + 1 {
                            ScanState { out: st.out.push(id@), ..st }
                        } else if c <= p {
                            ScanState { stopped: true, ..st }
                        } else {
                            st
                        },
                        None => st,
                    },
                    _ => st,
                }
            },
        }
    }
}

/// The flat scan over the first `n` items.
pub open spec fn scan(items: Seq<TreeItem>, node: Seq<char>, n: int) -> ScanState
    decreases n,
{
    if n <= 0 {
        ScanState { found: false, parent: None, stopped: false, out: Seq::empty() }
    } else {
        scan_step(scan(items, node, n - 1), items[n - 1], node)
    }
}

/// The children of `node` found by scanning every tree item on the page in
/// document order.
pub fn flat_scan_children(node: &str, items: &Vec<TreeItem>) -> (r: Vec<String>)
    ensures
        r@.map_values(|c: String| c@) == scan(items@, node@, items.len() as int).out,
        forall|j: int| 0 <= j < r.len() ==> #[trigger] r[j]@ != node@,
{
    let mut out: Vec<String> = Vec::new();
    let mut found = false;
    let mut parent: Option<i32> = None;
    let mut stopped = false;
    let mut i: usize = 0;
    while i < items.len()
        invariant
            i <= items.len(),
            found == scan(items@, node@, i as int).found,
            parent == scan(items@, node@, i as int).parent,
            stopped == scan(items@, node@, i as int).stopped,
            out@.map_values(|c: String| c@) == scan(items@, node@, i as int).out,
            forall|j: int| 0 <= j < out.len() ==> #[trigger] out[j]@ != node@,
        decreases items.len() - i,
    {
        let item = &items[i];
        if !stopped {
            match &item.id {
                None => {},
                Some(id) => {
                    if text_eq(id.as_str(), node) {
                        found = true;
                        match &item.level {
                            Some(l) => {
                                parent = parse_level(l.as_str());
                            },
                            None => {},
                        }
                    } else if found {
                        match (parent, &item.level) {
                            (Some(p), Some(l)) => match parse_level(l.as_str()) {
                                Some(c) => {
                                    if c as i64 == p as i64 + 1 {
                                        out.push(id.clone());
                                    } else if c <= p {
                                        stopped = true;
                                    }
                                },
                                None => {},
                            },
                            _ => {},
                        }
                    }
                },
            }
        }
        assert(out@.map_values(|c: String| c@) =~= scan(items@, node@, i + 1).out);
        i = i + 1;
    }
    out
}

/// An item that ends the children of a node at level `l`: it has an
/// identifier and sits at level `l` or above.
pub open spec fn ends_children(item: TreeItem, l: i32) -> bool {
    item.id is Some && (item.level matches Some(s) && (level_value(s@) matches Some(c) && c <= l))
}

/// An item that is a child of a node at level `l`: it has an identifier and
/// sits at level `l + 1`.
pub open spec fn is_child_item(item: TreeItem, l: i32) -> bool {
    item.id is Some && (item.level matches Some(s) && (level_value(s@) matches Some(c) && c as int
        == l as int + 1))
}

/// The first index at or after `from` whose item ends the children of a
/// node at level `l`, or the number of items when none does.
pub open spec fn children_end(items: Seq<TreeItem>, l: i32, from: int) -> int
    decreases items.len() - from,
{
    if from < 0 || from >= items.len() {
        items.len() as int
    } else if ends_children(items[from], l) {
        from
    } else {
        children_end(items, l, from + 1)
    }
}

/// The identifiers of the items at level `l + 1` among those at indices
/// `from` to `to`, excluded, in order.
pub open spec fn child_ids_between(items: Seq<TreeItem>, l: i32, from: int, to: int) -> Seq<
    Seq<char>,
>
    decreases to - from,
{
    if to <= from {
        Seq::empty()
    } else {
        let prev = child_ids_between(items, l, from, to - 1);
        if is_child_item(items[to - 1], l) {
            prev.push(items[to - 1].id.unwrap()@)
        } else {
            prev
        }
    }
}

proof fn lemma_children_end(items: Seq<TreeItem>, l: i32, from: int)
    requires
        0 <= from <= items.len(),
    ensures
        from <= children_end(items, l, from) <= items.len(),
        children_end(items, l, from) < items.len() ==> ends_children(
            items[children_end(items, l, from)],
            l,
        ),
        forall|j: int| from <= j < children_end(items, l, from) ==> !ends_children(#[trigger] items[j], l),
    decreases items.len() - from,
{
    if from < items.len() && !ends_children(items[from], l) {
        lemma_children_end(items, l, from + 1);
    }
}

/// The scan's state after the first `n` items, when the node sits alone at
/// index `p`, at level `l`.
proof fn lemma_scan_prefix(items: Seq<TreeItem>, node: Seq<char>, p: int, l: i32, n: int)
    requires
        0 <= p < items.len(),
        0 <= n <= items.len(),
        items[p].id matches Some(id) && id@ == node,
        items[p].level matches Some(s) && level_value(s@) == Some(l),
        forall|q: int|
            0 <= q < items.len() && q != p ==> ((#[trigger] items[q]).id matches Some(id) ==> id@
                != node),
    ensures
        n <= p ==> !scan(items, node, n).found && scan(items, node, n).parent is None
            && !scan(items, node, n).stopped && scan(items, node, n).out.len() == 0,
        n > p ==> {
            let stop = children_end(items, l, p + 1);
            let st = scan(items, node, n);
            &&& st.found
            &&& st.parent == Some(l)
            &&& st.stopped == (stop < n)
            &&& st.out == child_ids_between(items, l, p + 1, if n < stop { n } else { stop })
        },
    decreases n,
{
    if n > 0 {
        lemma_scan_prefix(items, node, p, l, n - 1);
        lemma_children_end(items, l, p + 1);
        let stop = children_end(items, l, p + 1);
        if n - 1 > p && !(stop < n - 1) {
            if stop == n - 1 {
                assert(ends_children(items[n - 1], l));
            } else {
                assert(!ends_children(items[n - 1], l));
            }
        }
    }
}

/// The flat scan, stated directly: when the node's identifier appears once,
/// at index `p` with level `l`, its children are the identified items at
/// level `l + 1` strictly between `p` and the first later identified item at
/// level `l` or above.
pub proof fn lemma_flat_scan_direct(items: Seq<TreeItem>, node: Seq<char>, p: int, l: i32)
    requires
        0 <= p < items.len(),
        items[p].id matches Some(id) && id@ == node,
        items[p].level matches Some(s) && level_value(s@) == Some(l),
        forall|q: int|
            0 <= q < items.len() && q != p ==> ((#[trigger] items[q]).id matches Some(id) ==> id@
                != node),
    ensures
        scan(items, node, items.len() as int).out == child_ids_between(
            items,
            l,
            p + 1,
            children_end(items, l, p + 1),
        ),
{
    lemma_scan_prefix(items, node, p, l, items.len() as int);
    lemma_children_end(items, l, p + 1);
}

} // verus!
