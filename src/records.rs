//! Content records: what one link card or embedded video on a node's page
//! becomes, how a probed URL is classified, and the breadcrumb label.
use vstd::prelude::*;
use vstd::string::StrSliceExecFns;
use vstd::string::StringExecFns;
use crate::text::{extract_youtube_video_id, trim, trim_seq, video_id_of};

verus! {

/// The kind of a piece of content.
#[derive(Debug, Clone, Copy, PartialEq, Eq, Structural)]
pub enum ContentKind {
    ExternalLink,
    YouTube,
}

impl ContentKind {
    pub open spec fn label_spec(self) -> Seq<char> {
        match self {
            ContentKind::ExternalLink => "ExternalLink"@,
            ContentKind::YouTube => "YouTube"@,
        }
    }

    /// The kind's name as written to the output table.
    pub fn label(&self) -> (r: String)
        ensures
            r@ == self.label_spec(),
    {
        match self {
            ContentKind::ExternalLink => String::from_str("ExternalLink"),
            ContentKind::YouTube => String::from_str("YouTube"),
        }
    }
}

/// How reachable a record's URL turned out to be.
#[derive(Debug, Clone, Copy, PartialEq, Eq, Structural)]
pub enum UrlStatus {
    /// The probe answered with a success status.
    Valid,
    /// The probe answered with a redirection status.
    Redirect,
    /// The probe answered with any other status, kept here.
    Error(u16),
    /// The probe got no answer at all (timeout, DNS, refused connection).
    Invalid,
    /// There was no URL to probe.
    NotApplicable,
    /// Probing was switched off.
    Skipped,
}

pub open spec fn digit_chars() -> Seq<char> {
    seq!['0', '1', '2', '3', '4', '5', '6', '7', '8', '9']
}

/// The decimal digits of `n`, without leading zeros.
pub open spec fn decimal(n: nat) -> Seq<char>
    decreases n,
{
    if n < 10 {
        seq![digit_chars()[n as int]]
    } else {
        decimal(n / 10).push(digit_chars()[(n % 10) as int])
    }
}

/// Appends the decimal digits of `n` to `out`.
fn append_decimal(out: &mut String, n: u16)
    ensures
        final(out)@ == old(out)@ + decimal(n as nat),
    decreases n,
{
    if n >= 10 {
        append_decimal(out, n / 10);
    }
    let d = (n % 10) as usize;
    let digits = "0123456789";
    proof {
        reveal_strlit("0123456789");
        assert(digits@ =~= digit_chars());
    }
    let one = digits.substring_char(d, d + 1);
    assert(one@ =~= seq![digit_chars()[d as int]]);
    out.append(one);
    assert(out@ =~= old(out)@ + decimal(n as nat));
}

impl UrlStatus {
    pub open spec fn label_spec(self) -> Seq<char> {
        match self {
            UrlStatus::Valid => "Valid"@,
            UrlStatus::Redirect => "Redirect"@,
            UrlStatus::Error(code) => "Error "@ + decimal(code as nat),
            UrlStatus::Invalid => "Invalid"@,
            UrlStatus::NotApplicable => "N/A"@,
            UrlStatus::Skipped => "Skipped"@,
        }
    }

    /// The classification as written to the output table.
    pub fn label(&self) -> (r: String)
        ensures
            r@ == self.label_spec(),
    {
        match self {
            UrlStatus::Valid => String::from_str("Valid"),
            UrlStatus::Redirect => String::from_str("Redirect"),
            UrlStatus::Error(code) => {
                let mut s = String::from_str("Error ");
                append_decimal(&mut s, *code);
                s
            },
            UrlStatus::Invalid => String::from_str("Invalid"),
            UrlStatus::NotApplicable => String::from_str("N/A"),
            UrlStatus::Skipped => String::from_str("Skipped"),
        }
    }
}

pub open spec fn classify_status_spec(code: u16) -> UrlStatus {
    if 200 <= code < 300 {
        UrlStatus::Valid
    } else if 300 <= code < 400 {
        UrlStatus::Redirect
    } else {
        UrlStatus::Error(code)
    }
}

/// Classifies an HTTP status that a probe answered with: 2xx is valid, 3xx a
/// redirect, anything else an error carrying the code.
pub fn classify_status(code: u16) -> (r: UrlStatus)
    ensures
        r == classify_status_spec(code),
{
    if 200 <= code && code < 300 {
        UrlStatus::Valid
    } else if 300 <= code && code < 400 {
        UrlStatus::Redirect
    } else {
        UrlStatus::Error(code)
    }
}

/// Whether a URL is worth probing at all: an empty one is not.
pub fn should_probe(url: &str) -> (r: bool)
    ensures
        r == (url@.len() > 0),
{
    url.unicode_len() > 0
}

pub open spec fn classify_probe_spec(url: Seq<char>, answer: Option<u16>) -> UrlStatus {
    if url.len() == 0 {
        UrlStatus::NotApplicable
    } else {
        match answer {
            Some(code) => classify_status_spec(code),
            None => UrlStatus::Invalid,
        }
    }
}

/// Classifies a URL from what probing it gave: the status it answered with,
/// or `None` when no answer came. An empty URL is never probed and is `N/A`.
pub fn classify_probe(url: &str, answer: Option<u16>) -> (r: UrlStatus)
    ensures
        r == classify_probe_spec(url@, answer),
{
    if !should_probe(url) {
        UrlStatus::NotApplicable
    } else {
        match answer {
            Some(code) => classify_status(code),
            None => UrlStatus::Invalid,
        }
    }
}

/// One content fragment as read off a node's page. A sub-field that could not
/// be found is `None`; texts are as read, untrimmed.
#[derive(Debug, Clone)]
pub enum Fragment {
    /// An external-link card and its labelled sub-fields.
    Link {
        url: Option<String>,
        title: Option<String>,
        author: Option<String>,
        file_type: Option<String>,
        size: Option<String>,
    },
    /// An embedded-video block and the source of its frame.
    Video { src: Option<String> },
}

/// One extracted piece of content.
#[derive(Debug, Clone)]
pub struct ContentRecord {
    pub source_node: String,
    pub breadcrumb_path: String,
    pub kind: ContentKind,
    pub url: String,
    pub title: String,
    pub author: String,
    pub file_type: String,
    pub size: String,
    pub url_valid: UrlStatus,
}

/// A sub-field's value in a record: its trimmed text, or empty when absent.
pub open spec fn field_seq(raw: Option<String>) -> Seq<char> {
    match raw {
        Some(t) => trim_seq(t@),
        None => Seq::empty(),
    }
}

/// A sub-field's value in a record: its trimmed text, or empty when absent.
pub fn field_text(raw: &Option<String>) -> (r: String)
    ensures
        r@ == field_seq(*raw),
{
    match raw {
        Some(t) => trim(t.as_str()),
        None => String::new(),
    }
}

/// The title given to a video from its URL.
pub open spec fn video_title(url: Seq<char>) -> Seq<char> {
    match video_id_of(url) {
        Some(id) => "YouTube Video ("@ + id + ")"@,
        None => Seq::empty(),
    }
}

impl Fragment {
    pub open spec fn url_spec(self) -> Seq<char> {
        match self {
            Fragment::Link { url, .. } => field_seq(url),
            Fragment::Video { src } => field_seq(src),
        }
    }

    pub open spec fn title_spec(self) -> Seq<char> {
        match self {
            Fragment::Link { title, .. } => field_seq(title),
            Fragment::Video { src } => video_title(field_seq(src)),
        }
    }

    /// A fragment is kept when its link has a URL or a title, or its video a URL.
    pub open spec fn retained(self) -> bool {
        match self {
            Fragment::Link { .. } => self.url_spec().len() > 0 || self.title_spec().len() > 0,
            Fragment::Video { .. } => self.url_spec().len() > 0,
        }
    }

    /// The URL a record of this fragment carries: the one to probe.
    pub fn url(&self) -> (r: String)
        ensures
            r@ == self.url_spec(),
    {
        match self {
            Fragment::Link { url, .. } => field_text(url),
            Fragment::Video { src } => field_text(src),
        }
    }
}

/// `rec` is the record that fragment `f` of node `node`, under breadcrumb
/// `crumb`, gives with URL classification `status`.
pub open spec fn is_record_of(
    rec: ContentRecord,
    node: Seq<char>,
    crumb: Seq<char>,
    f: Fragment,
    status: UrlStatus,
) -> bool {
    &&& rec.source_node@ == node
    &&& rec.breadcrumb_path@ == crumb
    &&& rec.url@ == f.url_spec()
    &&& rec.title@ == f.title_spec()
    &&& rec.url_valid == status
    &&& match f {
        Fragment::Link { author, file_type, size, .. } => {
            &&& rec.kind == ContentKind::ExternalLink
            &&& rec.author@ == field_seq(author)
            &&& rec.file_type@ == field_seq(file_type)
            &&& rec.size@ == field_seq(size)
        },
        Fragment::Video { .. } => {
            &&& rec.kind == ContentKind::YouTube
            &&& rec.author@ == Seq::<char>::empty()
            &&& rec.file_type@ == "video"@
            &&& rec.size@ == Seq::<char>::empty()
        },
    }
}

/// The title for a video found at `url`: `YouTube Video (<id>)` when the URL
/// carries an embed token, else empty.
pub fn video_title_of(url: &str) -> (r: String)
    ensures
        r@ == video_title(url@),
{
    match extract_youtube_video_id(url) {
        Some(id) => {
            let mut t = String::from_str("YouTube Video (");
            t.append(id.as_str());
            t.append(")");
            t
        },
        None => String::new(),
    }
}

/// The record that fragment `f` gives, or `None` when the fragment is dropped
/// for carrying neither URL nor title (a video: no URL).
pub fn fragment_record(node: &str, crumb: &str, f: &Fragment, status: UrlStatus) -> (r: Option<
    ContentRecord,
>)
    ensures
        r is Some <==> f.retained(),
        r matches Some(rec) ==> is_record_of(rec, node@, crumb@, *f, status),
        r matches Some(rec) ==> rec.url@.len() > 0 || rec.title@.len() > 0,
{
    match f {
        Fragment::Link { url, title, author, file_type, size } => {
            let url = field_text(url);
            let title = field_text(title);
            if url.as_str().unicode_len() == 0 && title.as_str().unicode_len() == 0 {
                return None;
            }
            Some(
                ContentRecord {
                    source_node: String::from_str(node),
                    breadcrumb_path: String::from_str(crumb),
                    kind: ContentKind::ExternalLink,
                    url,
                    title,
                    author: field_text(author),
                    file_type: field_text(file_type),
                    size: field_text(size),
                    url_valid: status,
                },
            )
        },
        Fragment::Video { src } => {
            let url = field_text(src);
            if url.as_str().unicode_len() == 0 {
                return None;
            }
            let title = video_title_of(url.as_str());
            Some(
                ContentRecord {
                    source_node: String::from_str(node),
                    breadcrumb_path: String::from_str(crumb),
                    kind: ContentKind::YouTube,
                    url,
                    title,
                    author: String::new(),
                    file_type: String::from_str("video"),
                    size: String::new(),
                    url_valid: status,
                },
            )
        },
    }
}

/// The indices, among the first `n` fragments, of those that are kept.
pub open spec fn kept_indices(frags: Seq<Fragment>, n: int) -> Seq<int>
    decreases n,
{
    if n <= 0 {
        Seq::empty()
    } else if frags[n - 1].retained() {
        kept_indices(frags, n - 1).push(n - 1)
    } else {
        kept_indices(frags, n - 1)
    }
}

proof fn lemma_kept_indices_bounded(frags: Seq<Fragment>, n: int)
    requires
        0 <= n,
    ensures
        forall|j: int|
            0 <= j < kept_indices(frags, n).len() ==> 0 <= #[trigger] kept_indices(frags, n)[j]
                < n,
    decreases n,
{
    if n > 0 {
        lemma_kept_indices_bounded(frags, n - 1);
        let prev = kept_indices(frags, n - 1);
        let cur = kept_indices(frags, n);
        assert forall|j: int| 0 <= j < cur.len() implies 0 <= #[trigger] cur[j] < n by {
            if j < prev.len() {
                assert(cur[j] == prev[j]);
            }
        }
    }
}

/// `recs` are the records of fragments `frags` of node `node` under breadcrumb
/// `crumb`, each classified by the status at its index: one per kept
/// fragment, in page order.
pub open spec fn region_records(
    node: Seq<char>,
    crumb: Seq<char>,
    frags: Seq<Fragment>,
    statuses: Seq<UrlStatus>,
    recs: Seq<ContentRecord>,
) -> bool {
    &&& recs.len() == kept_indices(frags, frags.len() as int).len()
    &&& forall|j: int|
        0 <= j < recs.len() ==> {
            let k = #[trigger] kept_indices(frags, frags.len() as int)[j];
            0 <= k < frags.len() && is_record_of(recs[j], node, crumb, frags[k], statuses[k])
        }
}

/// The records of a node's fragments, in page order, each fragment classified
/// by the status at the same index; dropped fragments leave no record.
pub fn records_of(node: &str, crumb: &str, frags: &Vec<Fragment>, statuses: &Vec<UrlStatus>) -> (r:
    Vec<ContentRecord>)
    requires
        frags.len() == statuses.len(),
    ensures
        region_records(node@, crumb@, frags@, statuses@, r@),
        forall|j: int| 0 <= j < r.len() ==> #[trigger] r[j].url@.len() > 0 || r[j].title@.len() > 0,
{
    let mut out: Vec<ContentRecord> = Vec::new();
    let mut i: usize = 0;
    while i < frags.len()
        invariant
            frags.len() == statuses.len(),
            i <= frags.len(),
            out.len() == kept_indices(frags@, i as int).len(),
            forall|j: int|
                0 <= j < out.len() ==> {
                    let k = #[trigger] kept_indices(frags@, i as int)[j];
                    0 <= k < i && is_record_of(out[j], node@, crumb@, frags[k], statuses[k])
                },
            forall|j: int|
                0 <= j < out.len() ==> #[trigger] out[j].url@.len() > 0 || out[j].title@.len() > 0,
        decreases frags.len() - i,
    {
        proof {
            lemma_kept_indices_bounded(frags@, i as int);
        }
        match fragment_record(node, crumb, &frags[i], statuses[i]) {
            Some(rec) => {
                out.push(rec);
            },
            None => {},
        }
        i = i + 1;
    }
    out
}

/// The trimmed, non-empty texts among `parts`, in order.
pub open spec fn kept_parts(parts: Seq<String>) -> Seq<Seq<char>>
    decreases parts.len(),
{
    if parts.len() == 0 {
        Seq::empty()
    } else {
        let t = trim_seq(parts.last()@);
        if t.len() > 0 {
            kept_parts(parts.drop_last()).push(t)
        } else {
            kept_parts(parts.drop_last())
        }
    }
}

/// `parts` joined with `sep` between neighbours.
pub open spec fn joined(parts: Seq<Seq<char>>, sep: Seq<char>) -> Seq<char>
    decreases parts.len(),
{
    if parts.len() == 0 {
        Seq::empty()
    } else if parts.len() == 1 {
        parts[0]
    } else {
        joined(parts.drop_last(), sep) + sep + parts.last()
    }
}

/// The breadcrumb label of a page. `trail` holds the texts of the navigation
/// trail's links, or is `None` when the trail could not be queried; `title` is
/// the page title when it could be read.
pub open spec fn breadcrumb_spec(trail: Option<Seq<String>>, title: Option<Seq<char>>) -> Seq<char> {
    match trail {
        None => "Unknown Path"@,
        Some(parts) => if kept_parts(parts).len() > 0 {
            joined(kept_parts(parts), " > "@)
        } else {
            match title {
                Some(t) => t,
                None => "Unknown Path"@,
            }
        },
    }
}

/// The breadcrumb label of a page: the trail's non-empty link texts joined by
/// ` > `, else the page title, else `Unknown Path`.
pub fn breadcrumb_path(trail: &Option<Vec<String>>, title: &Option<String>) -> (r: String)
    ensures
        r@ == breadcrumb_spec(
            match trail {
                Some(v) => Some(v@),
                None => None,
            },
            match title {
                Some(t) => Some(t@),
                None => None,
            },
        ),
{
    let parts = match trail {
        None => {
            return String::from_str("Unknown Path");
        },
        Some(v) => v,
    };
    let mut out = String::new();
    let mut any = false;
    let mut i: usize = 0;
    while i < parts.len()
        invariant
            i <= parts.len(),
            any == (kept_parts(parts@.subrange(0, i as int)).len() > 0),
            out@ == joined(kept_parts(parts@.subrange(0, i as int)), " > "@),
        decreases parts.len() - i,
    {
        let t = trim(parts[i].as_str());
        assert(parts@.subrange(0, i + 1).drop_last() =~= parts@.subrange(0, i as int));
        if t.as_str().unicode_len() > 0 {
            if any {
                out.append(" > ");
            }
            out.append(t.as_str());
            proof {
                let k = kept_parts(parts@.subrange(0, i + 1));
                assert(k.drop_last() =~= kept_parts(parts@.subrange(0, i as int)));
            }
            any = true;
        }
        i = i + 1;
    }
    assert(parts@.subrange(0, parts.len() as int) =~= parts@);
    if any {
        out
    } else {
        match title {
            Some(t) => t.clone(),
            None => String::from_str("Unknown Path"),
        }
    }
}

} // verus!
