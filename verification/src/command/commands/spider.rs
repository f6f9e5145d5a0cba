//! A crawler that GETs every resource it can find, following the links of
//! each link-format resource to the resources of the same device.

use vstd::prelude::*;

use std::collections::VecDeque;

use super::super::request::RequestPlan;
use super::super::request::RequestView;
use super::super::Command;
use super::super::CommandKind;
use crate::datatypes::coap_log::CoapMessage;
use crate::datatypes::coap_log::CodeClass;
use crate::datatypes::coap_log::MessageView;
use crate::numfmt::decimal;
use crate::numfmt::digits;
use crate::text::debug_string;
use crate::text::debug_text;
use crate::text::same_text;
use crate::text::str_from_utf8;
use crate::text::string_push_str;

verus! {

/// A queue that takes each value once: a value pushed again, even after it
/// was popped, is ignored.  The last value pushed is popped first.
pub struct OnceQueue {
    seen: Vec<String>,
    pending: VecDeque<String>,
}

/// A queue as values: all values ever taken, and those not popped yet.
pub struct OnceQueueView {
    pub seen: Seq<Seq<char>>,
    pub pending: Seq<Seq<char>>,
}

impl View for OnceQueue {
    type V = OnceQueueView;

    closed spec fn view(&self) -> OnceQueueView {
        OnceQueueView {
            seen: self.seen@.map_values(|s: String| s@),
            pending: self.pending@.map_values(|s: String| s@),
        }
    }
}

/// A queue holds no value twice, and every pending value has been seen.
pub open spec fn queue_wf(q: OnceQueueView) -> bool {
    &&& q.seen.no_duplicates()
    &&& q.pending.no_duplicates()
    &&& forall|i: int| 0 <= i < q.pending.len() ==> q.seen.contains(#[trigger] q.pending[i])
}

/// The queue after pushing `v`, and whether `v` was new.
pub open spec fn queue_push(q: OnceQueueView, v: Seq<char>) -> (OnceQueueView, bool) {
    if q.seen.contains(v) {
        (q, false)
    } else {
        (OnceQueueView { seen: q.seen.push(v), pending: q.pending.push(v) }, true)
    }
}

/// The queue after a pop, and the value popped: the last pending one.
pub open spec fn queue_pop(q: OnceQueueView) -> (OnceQueueView, Option<Seq<char>>) {
    if q.pending.len() == 0 {
        (q, None)
    } else {
        (OnceQueueView { pending: q.pending.drop_last(), ..q }, Some(q.pending.last()))
    }
}

impl OnceQueue {
    /// An empty queue.
    pub fn new() -> (r: Self)
        ensures
            r@.seen == Seq::<Seq<char>>::empty(),
            r@.pending == Seq::<Seq<char>>::empty(),
    {
        let r = Self { seen: Vec::new(), pending: VecDeque::new() };
        assert(r@.seen =~= Seq::<Seq<char>>::empty());
        assert(r@.pending =~= Seq::<Seq<char>>::empty());
        r
    }

    /// Takes `value` unless it was taken before; whether it was new.
    pub fn push(&mut self, value: &str) -> (r: bool)
        ensures
            (final(self)@, r) == queue_push(old(self)@, value@),
    {
        let mut i: usize = 0;
        while i < self.seen.len()
            invariant
                i <= self.seen.len(),
                forall|j: int| 0 <= j < i ==> self@.seen[j] != value@,
            decreases self.seen.len() - i,
        {
            if same_text(self.seen[i].as_str(), value) {
                assert(self@.seen[i as int] == value@);
                return false;
            }
            i = i + 1;
        }
        assert(!self@.seen.contains(value@));
        let ghost q = self@;
        self.seen.push(value.to_owned());
        self.pending.push_back(value.to_owned());
        assert(self@.seen =~= q.seen.push(value@));
        assert(self@.pending =~= q.pending.push(value@));
        true
    }

    /// Takes out the value pushed last that is still pending.
    pub fn pop(&mut self) -> (r: Option<String>)
        ensures
            final(self)@ == queue_pop(old(self)@).0,
            match r {
                Some(s) => queue_pop(old(self)@).1 == Some(s@),
                None => queue_pop(old(self)@).1 is None,
            },
    {
        let ghost q = self@;
        let r = self.pending.pop_back();
        proof {
            if q.pending.len() > 0 {
                assert(self@.pending =~= q.pending.drop_last());
            }
        }
        r
    }
}

/// Pushing keeps a queue well-formed: no value twice, every pending value
/// seen.
pub proof fn law_push_keeps_wf(q: OnceQueueView, v: Seq<char>)
    requires
        queue_wf(q),
    ensures
        queue_wf(queue_push(q, v).0),
{
    if !q.seen.contains(v) {
        let n = queue_push(q, v).0;
        assert forall|i: int| 0 <= i < n.pending.len() implies n.seen.contains(#[trigger] n.pending[i]) by {
            if i < q.pending.len() {
                assert(q.seen.contains(q.pending[i]));
                let k = choose|k: int| 0 <= k < q.seen.len() && q.seen[k] == q.pending[i];
                assert(n.seen[k] == n.pending[i]);
            } else {
                assert(n.seen[q.seen.len() as int] == v);
            }
        }
        assert forall|i: int, j: int| 0 <= i < j < n.pending.len() implies n.pending[i] != n.pending[j] by {
            if j == q.pending.len() {
                assert(q.seen.contains(q.pending[i]));
            }
        }
        assert forall|i: int, j: int| 0 <= i < j < n.seen.len() implies n.seen[i] != n.seen[j] by {
            if j == q.seen.len() {
                assert(q.seen.contains(q.seen[i]));
            }
        }
    }
}

/// Popping keeps a queue well-formed.
pub proof fn law_pop_keeps_wf(q: OnceQueueView)
    requires
        queue_wf(q),
    ensures
        queue_wf(queue_pop(q).0),
{
    let n = queue_pop(q).0;
    assert forall|i: int| 0 <= i < n.pending.len() implies n.seen.contains(#[trigger] n.pending[i]) by {
        assert(n.pending[i] == q.pending[i]);
    }
    assert forall|i: int, j: int| 0 <= i < j < n.pending.len() implies n.pending[i] != n.pending[j] by {
        assert(n.pending[i] == q.pending[i] && n.pending[j] == q.pending[j]);
    }
}

/// A value is taken at most once: after it was pushed, pushing it again,
/// whether or not it was popped meanwhile, changes nothing and says it is
/// not new.
pub proof fn law_push_twice_is_ignored(q: OnceQueueView, v: Seq<char>, popped: bool)
    ensures
        ({
            let q1 = queue_push(q, v).0;
            let q2 = if popped {
                queue_pop(q1).0
            } else {
                q1
            };
            queue_push(q2, v) == (q2, false)
        }),
{
    let q1 = queue_push(q, v).0;
    assert(q1.seen.contains(v)) by {
        if !q.seen.contains(v) {
            assert(q1.seen[q.seen.len() as int] == v);
        }
    }
}

/// A popped value was pushed once, is no longer pending, and never will be
/// again: the queue does not give a value out twice.
pub proof fn law_popped_value_is_done(q: OnceQueueView, v: Seq<char>)
    requires
        queue_wf(q),
        queue_pop(q).1 == Some(v),
    ensures
        q.seen.contains(v),
        !queue_pop(q).0.pending.contains(v),
        queue_push(queue_pop(q).0, v) == (queue_pop(q).0, false),
{
    let n = queue_pop(q).0;
    let last = q.pending.len() - 1;
    assert(q.seen.contains(q.pending[last]));
    if n.pending.contains(v) {
        let k = choose|k: int| 0 <= k < n.pending.len() && n.pending[k] == v;
        assert(q.pending[k] == q.pending[last]);
    }
}

/// A link of a link-format document: its target, and its attributes, each
/// key with its value (unquoted).
pub struct Link {
    pub target: String,
    pub attributes: Vec<(String, String)>,
}

/// A link as values.
pub struct LinkView {
    pub target: Seq<char>,
    pub attributes: Seq<(Seq<char>, Seq<char>)>,
}

impl View for Link {
    type V = LinkView;

    open spec fn view(&self) -> LinkView {
        LinkView {
            target: self.target@,
            attributes: self.attributes@.map_values(|a: (String, String)| (a.0@, a.1@)),
        }
    }
}

/// An item of a link-format document as values: a link, or `None` where
/// the document does not parse.
pub open spec fn link_item(l: Option<Link>) -> Option<LinkView> {
    match l {
        Some(x) => Some(x@),
        None => None,
    }
}

/// An optional text as a value.
pub open spec fn option_text(o: Option<String>) -> Option<Seq<char>> {
    match o {
        Some(s) => Some(s@),
        None => None,
    }
}

/// What coap-lite's `LinkFormatParser` yields for `text` (RFC 6690): each
/// link in turn, with each attribute's value as written (quotes and escapes
/// kept), and `None` for the item where the text stops parsing.
pub uninterp spec fn link_format_items(text: Seq<char>) -> Seq<Option<LinkView>>;

/// The links of a link-format document (coap-lite's `LinkFormatParser`;
/// each attribute's value is taken raw, with `Unquote::into_raw_str`).
#[verifier::external_body]
fn parse_link_format(text: &str) -> (r: Vec<Option<Link>>)
    ensures
        r@.map_values(|l: Option<Link>| link_item(l)) == link_format_items(text@),
{
    coap_lite::link_format::LinkFormatParser::new(text).map(
        |item| item.ok().map(
            |(target, attributes)| Link {
                target: target.to_owned(),
                attributes: attributes.map(|(k, v)| (k.to_owned(), v.into_raw_str().to_owned())).collect(),
            },
        ),
    ).collect()
}

/// The text of a quoted string after its opening quote, unescaped: it ends
/// at the next unescaped `"` or with the text; a backslash takes the
/// character after it as it is (a backslash at the very end is dropped).
pub open spec fn unquote_rest(s: Seq<char>) -> Seq<char>
    decreases s.len(),
{
    if s.len() == 0 || s[0] == '"' {
        Seq::empty()
    } else if s[0] == '\\' {
        if s.len() == 1 {
            Seq::empty()
        } else {
            seq![s[1]] + unquote_rest(s.skip(2))
        }
    } else {
        seq![s[0]] + unquote_rest(s.drop_first())
    }
}

/// Whether `raw` is quoted: it starts with `"`.
pub open spec fn is_quoted(raw: Seq<char>) -> bool {
    raw.len() > 0 && raw[0] == '"'
}

/// What coap-lite's `Unquote::to_cow` makes of an attribute value written
/// `raw`: text that is not quoted stays as it is; quoted text with a
/// backslash is unescaped (see `unquote_rest`); quoted text without one
/// loses its first and its last character.
pub open spec fn unquoted(raw: Seq<char>) -> Seq<char> {
    if !is_quoted(raw) {
        raw
    } else if raw.contains('\\') {
        unquote_rest(raw.drop_first())
    } else {
        raw.subrange(1, raw.len() - 1)
    }
}

/// Whether `Unquote::to_cow` panics on `raw`: quoted text without a
/// backslash is cut by bytes, one from each end, which fails for a lone
/// `"` and where the last character takes more than one byte.
pub open spec fn unquote_panics(raw: Seq<char>) -> bool {
    &&& is_quoted(raw)
    &&& !raw.contains('\\')
    &&& (raw.len() == 1 || raw.last() as u32 >= 128)
}

/// `raw` unquoted (coap-lite's `Unquote::new`, then `Unquote::to_cow`).
#[verifier::external_body]
fn unquote(raw: &str) -> (r: String)
    requires
        !unquote_panics(raw@),
    ensures
        r@ == unquoted(raw@),
{
    coap_lite::link_format::Unquote::new(raw).to_cow().into_owned()
}

/// Whether `Unquote::to_cow` would panic on `raw` (see `unquote_panics`).
pub fn unquote_would_panic(raw: &str) -> (r: bool)
    ensures
        r == unquote_panics(raw@),
{
    let v = crate::text::chars_of(raw);
    if v.len() == 0 || v[0] != '"' {
        return false;
    }
    let mut i: usize = 0;
    while i < v.len()
        invariant
            i <= v.len(),
            v@ == raw@,
            forall|j: int| 0 <= j < i ==> v@[j] != '\\',
        decreases v.len() - i,
    {
        if v[i] == '\\' {
            assert(v@[i as int] == '\\');
            assert(raw@.contains('\\'));
            return false;
        }
        i = i + 1;
    }
    let last = v[v.len() - 1];
    v.len() == 1 || last as u32 >= 128
}

/// What the url crate's `Url::join` makes of `reference` against the URL
/// whose serialization is `base`: the serialization of the result, `None`
/// where either does not parse.
pub uninterp spec fn url_joined(base: Seq<char>, reference: Seq<char>) -> Option<Seq<char>>;

/// Resolves `reference` against `base` (url's `Url::parse` of `base`, then
/// `Url::join`).
#[verifier::external_body]
fn url_join(base: &str, reference: &str) -> (r: Option<String>)
    ensures
        option_text(r) == url_joined(base@, reference@),
{
    let base = url::Url::parse(base).ok()?;
    base.join(reference).ok().map(String::from)
}

/// Whether the URLs with the serializations `a` and `b` have the same
/// origin (url's `Url::origin`, compared with `==`; an opaque origin equals
/// no other, and both must parse).
pub uninterp spec fn url_same_origin(a: Seq<char>, b: Seq<char>) -> bool;

/// Whether `a` and `b` have the same origin (url's `Url::origin`).
#[verifier::external_body]
fn same_origin(a: &str, b: &str) -> (r: bool)
    ensures
        r == url_same_origin(a@, b@),
{
    match (url::Url::parse(a), url::Url::parse(b)) {
        (Ok(x), Ok(y)) => x.origin() == y.origin(),
        _ => false,
    }
}

/// What url's `Url::make_relative` gives for the URL `url` seen from
/// `base`, both given by their serializations.
pub uninterp spec fn url_relative(base: Seq<char>, url: Seq<char>) -> Option<Seq<char>>;

/// `url` relative to `base` (url's `Url::make_relative`).
#[verifier::external_body]
fn make_relative(base: &str, url: &str) -> (r: Option<String>)
    ensures
        option_text(r) == url_relative(base@, url@),
{
    let base = url::Url::parse(base).ok()?;
    let url = url::Url::parse(url).ok()?;
    base.make_relative(&url)
}

/// Why a link leads to no local resource.
#[derive(Clone, Copy, PartialEq, Eq, Structural, Debug)]
pub enum LinkError {
    /// The link-format document does not parse there.
    Malformed,
    /// The anchor or the target is no URI reference.
    BadReference,
    /// The target lies on another host.
    NotLocal,
}

/// The URI that links are resolved against: the device's origin.
pub open spec fn device_base() -> Seq<char> {
    "https://slipmux/"@
}

/// The value of the first `anchor` attribute, if any.
pub open spec fn first_anchor(attributes: Seq<(Seq<char>, Seq<char>)>) -> Option<Seq<char>>
    decreases attributes.len(),
{
    if attributes.len() == 0 {
        None
    } else if attributes[0].0 == "anchor"@ {
        Some(attributes[0].1)
    } else {
        first_anchor(attributes.drop_first())
    }
}

/// What a link's target is resolved against: the origin of its anchor, or
/// the device's origin when it has none.
pub open spec fn anchor_base(anchor: Option<Seq<char>>) -> Option<Seq<char>> {
    match anchor {
        None => Some(device_base()),
        Some(a) => match url_joined(device_base(), a) {
            Some(u) => url_joined(u, "/"@),
            None => None,
        },
    }
}

/// The first `anchor` of a link unquoted, if it has one.
pub open spec fn link_anchor(attributes: Seq<(Seq<char>, Seq<char>)>) -> Option<Seq<char>> {
    match first_anchor(attributes) {
        Some(a) => Some(unquoted(a)),
        None => None,
    }
}

/// Whether a link's first anchor, if any, can be unquoted without a panic
/// of coap-lite's `Unquote::to_cow`.
pub open spec fn anchor_unquotable(link: Option<LinkView>) -> bool {
    match link {
        Some(l) => match first_anchor(l.attributes) {
            Some(a) => !unquote_panics(a),
            None => true,
        },
        None => true,
    }
}

/// What becomes of a link, given what the URL library made of it: `base`,
/// the URL its target is resolved against; `href`, the target resolved;
/// `same`, whether `href` has the device's origin; `relative`, `href` seen
/// from the device's origin. A missing `base` or `href` means the anchor or
/// the target is no URI reference; a target elsewhere is not local.
pub open spec fn link_resolution(
    base: Option<Seq<char>>,
    href: Option<Seq<char>>,
    same: bool,
    relative: Option<Seq<char>>,
) -> Result<Seq<char>, LinkError> {
    if base is None || href is None {
        Err(LinkError::BadReference)
    } else if !same {
        Err(LinkError::NotLocal)
    } else {
        match relative {
            Some(r) => Ok(r),
            None => Err(LinkError::NotLocal),
        }
    }
}

/// The path and query of the resource a link points to on the device
/// (RFC 6690: the target is resolved against the anchor's origin), or why
/// there is none.
pub open spec fn local_target(link: Option<LinkView>) -> Result<Seq<char>, LinkError> {
    match link {
        None => Err(LinkError::Malformed),
        Some(l) => {
            let base = anchor_base(link_anchor(l.attributes));
            let href = match base {
                Some(b) => url_joined(b, l.target),
                None => None,
            };
            let same = match href {
                Some(h) => url_same_origin(h, device_base()),
                None => false,
            };
            let relative = match href {
                Some(h) => if same { url_relative(device_base(), h) } else { None },
                None => None,
            };
            link_resolution(base, href, same, relative)
        },
    }
}

/// Decides what becomes of a link from what the URL library made of it
/// (see `link_resolution`).
pub fn resolve_link(
    base: Option<String>,
    href: Option<String>,
    same: bool,
    relative: Option<String>,
) -> (r: Result<String, LinkError>)
    ensures
        match r {
            Ok(s) => link_resolution(option_text(base), option_text(href), same, option_text(relative))
                == Ok::<Seq<char>, LinkError>(s@),
            Err(e) => link_resolution(option_text(base), option_text(href), same, option_text(relative))
                == Err::<Seq<char>, LinkError>(e),
        },
{
    if base.is_none() || href.is_none() {
        return Err(LinkError::BadReference);
    }
    if !same {
        return Err(LinkError::NotLocal);
    }
    match relative {
        Some(r) => Ok(r),
        None => Err(LinkError::NotLocal),
    }
}

/// The value of the first `anchor` attribute of `link`.
fn find_anchor(link: &Link) -> (r: Option<&String>)
    ensures
        match r {
            Some(s) => first_anchor(link@.attributes) == Some(s@),
            None => first_anchor(link@.attributes) is None,
        },
{
    let ghost attrs = link@.attributes;
    assert(attrs.skip(0) =~= attrs);
    let mut i: usize = 0;
    while i < link.attributes.len()
        invariant
            i <= link.attributes.len() == attrs.len(),
            attrs == link@.attributes,
            first_anchor(attrs) == first_anchor(attrs.skip(i as int)),
        decreases link.attributes.len() - i,
    {
        let ghost rest = attrs.skip(i as int);
        assert(rest[0] == attrs[i as int]);
        if same_text(link.attributes[i].0.as_str(), "anchor") {
            return Some(&link.attributes[i].1);
        }
        assert(rest.drop_first() =~= attrs.skip(i + 1));
        i = i + 1;
    }
    assert(attrs.skip(i as int).len() == 0);
    None
}

/// Whether the first anchor of `link`, if any, can be unquoted (see
/// `anchor_unquotable`).
pub fn anchor_can_be_unquoted(link: &Option<Link>) -> (r: bool)
    ensures
        r == anchor_unquotable(link_item(*link)),
{
    match link {
        None => true,
        Some(l) => match find_anchor(l) {
            None => true,
            Some(a) => !unquote_would_panic(a.as_str()),
        },
    }
}

/// The path and query of the local resource `link` points to (see
/// `local_target`). The first anchor must be one that coap-lite can
/// unquote (see `anchor_unquotable`).
pub fn find_local_target(link: &Option<Link>) -> (r: Result<String, LinkError>)
    requires
        anchor_unquotable(link_item(*link)),
    ensures
        match r {
            Ok(s) => local_target(link_item(*link)) == Ok::<Seq<char>, LinkError>(s@),
            Err(e) => local_target(link_item(*link)) == Err::<Seq<char>, LinkError>(e),
        },
{
    let l = match link {
        Some(l) => l,
        None => return Err(LinkError::Malformed),
    };
    let device = "https://slipmux/";
    let base = match find_anchor(l) {
        None => Some(device.to_owned()),
        Some(a) => {
            let anchor = unquote(a.as_str());
            match url_join(device, anchor.as_str()) {
                Some(u) => url_join(u.as_str(), "/"),
                None => None,
            }
        },
    };
    let href = match &base {
        Some(b) => url_join(b.as_str(), l.target.as_str()),
        None => None,
    };
    let same = match &href {
        Some(h) => same_origin(h.as_str(), device),
        None => false,
    };
    let relative = match &href {
        Some(h) => if same { make_relative(device, h.as_str()) } else { None },
        None => None,
    };
    resolve_link(base, href, same, relative)
}

/// Crawls the device: GETs `.well-known/core`, and every local resource
/// that a link-format answer links to, once each.
pub struct Spider {
    queue: OnceQueue,
    printed: String,
    request: Option<RequestPlan>,
    done: bool,
}

/// The crawler as values: its queue, the text it has not shown yet, the
/// request waiting to be sent first, and whether it has run out of
/// resources.
pub struct SpiderView {
    pub queue: OnceQueueView,
    pub printed: Seq<char>,
    pub request: Option<RequestView>,
    pub done: bool,
}

impl View for Spider {
    type V = SpiderView;

    closed spec fn view(&self) -> SpiderView {
        SpiderView {
            queue: self.queue@,
            printed: self.printed@,
            request: match self.request {
                Some(r) => Some(r@),
                None => None,
            },
            done: self.done,
        }
    }
}

/// The line shown before a GET of `current`, with `remaining` resources
/// still waiting.
pub open spec fn getting_line(current: Seq<char>, remaining: nat) -> Seq<char> {
    "[spider] GETting "@ + debug_text(current) + ", "@ + digits(remaining, 10) + " remaining.\n"@
}

/// The line shown after a link-format answer with `found` local links, of
/// which `fresh` were new.
pub open spec fn found_line(found: nat, fresh: nat) -> Seq<char> {
    "[spider] Found "@ + digits(found, 10) + " links, thereof "@ + digits(fresh, 10) + " new.\n"@
}

/// The next step of the crawl from queue `q`: the queue after a pop, the
/// line to show and the GET of the popped resource; nothing when none is
/// pending.
pub open spec fn spider_advance(q: OnceQueueView) -> (OnceQueueView, Seq<char>, Option<RequestView>) {
    let (q1, current) = queue_pop(q);
    match current {
        None => (q1, Seq::empty(), None),
        Some(c) => (q1, getting_line(c, q1.pending.len()), Some(RequestPlan::get_view(c))),
    }
}

/// Where the crawl goes from a link: its local target; a link whose anchor
/// coap-lite cannot unquote counts as having none.
pub open spec fn crawl_target(link: Option<LinkView>) -> Result<Seq<char>, LinkError> {
    if anchor_unquotable(link) {
        local_target(link)
    } else {
        Err(LinkError::BadReference)
    }
}

/// The queue after pushing the local targets of `links`, with the number
/// of local links and of new ones among them.
pub open spec fn absorb(q: OnceQueueView, links: Seq<Option<LinkView>>) -> (OnceQueueView, nat, nat)
    decreases links.len(),
{
    if links.len() == 0 {
        (q, 0, 0)
    } else {
        let (q1, found, fresh) = absorb(q, links.drop_last());
        match crawl_target(links.last()) {
            Ok(h) => {
                let (q2, new) = queue_push(q1, h);
                (q2, found + 1, fresh + if new {
                    1nat
                } else {
                    0nat
                })
            },
            Err(_) => (q1, found, fresh),
        }
    }
}

/// Whether an answer is read for links: a success response in the
/// link-format content format (40) whose payload is UTF-8 text.
pub open spec fn lists_links(m: MessageView) -> bool {
    &&& m.class == CodeClass::Response
    &&& !m.status_is_error
    &&& m.content_format matches Some((n, _)) && n == 40
    &&& vstd::utf8::valid_utf8(m.payload)
}

/// What the crawler in queue state `q` makes of the answer `m`: the queue
/// with the local links of a link-format answer pushed, and the line to
/// show; other answers change nothing.
pub open spec fn spider_absorb(q: OnceQueueView, m: MessageView) -> (OnceQueueView, Seq<char>) {
    if lists_links(m) {
        let (q1, found, fresh) = absorb(q, link_format_items(vstd::utf8::decode_utf8(m.payload)));
        (q1, found_line(found, fresh))
    } else {
        (q, Seq::empty())
    }
}

/// A value already taken and no longer pending stays so, whatever links
/// are pushed.
proof fn lemma_absorb_keeps_done(q: OnceQueueView, links: Seq<Option<LinkView>>, c: Seq<char>)
    requires
        q.seen.contains(c),
        !q.pending.contains(c),
    ensures
        absorb(q, links).0.seen.contains(c),
        !absorb(q, links).0.pending.contains(c),
    decreases links.len(),
{
    if links.len() > 0 {
        lemma_absorb_keeps_done(q, links.drop_last(), c);
        let q1 = absorb(q, links.drop_last()).0;
        if let Ok(h) = crawl_target(links.last()) {
            let q2 = queue_push(q1, h).0;
            if !q1.seen.contains(h) {
                let k = choose|k: int| 0 <= k < q1.seen.len() && q1.seen[k] == c;
                assert(q2.seen[k] == c);
                if q2.pending.contains(c) {
                    let j = choose|j: int| 0 <= j < q2.pending.len() && q2.pending[j] == c;
                    if j < q1.pending.len() {
                        assert(q1.pending[j] == c);
                    }
                }
            }
        }
    }
}

/// The crawler GETs a resource at most once: a resource it moves on to is
/// no longer pending, and whatever the answer links to, it is not queued
/// again.
pub proof fn law_crawl_never_repeats(q: OnceQueueView, m: MessageView, c: Seq<char>)
    requires
        queue_wf(q),
        spider_advance(q).2 == Some(RequestPlan::get_view(c)),
    ensures
        !spider_absorb(spider_advance(q).0, m).0.pending.contains(c),
        spider_absorb(spider_advance(q).0, m).0.seen.contains(c),
{
    law_popped_value_is_done(q, c);
    let q1 = spider_advance(q).0;
    if lists_links(m) {
        lemma_absorb_keeps_done(q1, link_format_items(vstd::utf8::decode_utf8(m.payload)), c);
    }
}

/// The line shown before a GET.
fn getting_line_exec(current: &str, remaining: usize) -> (r: String)
    ensures
        r@ == getting_line(current@, remaining as nat),
{
    let mut s = "[spider] GETting ".to_owned();
    string_push_str(&mut s, debug_string(current).as_str());
    string_push_str(&mut s, ", ");
    string_push_str(&mut s, decimal(remaining as u64).as_str());
    string_push_str(&mut s, " remaining.\n");
    s
}

impl Spider {
    /// The command: `spider`.
    pub fn cmd() -> (r: Command)
        ensures
            r@.cmd == "spider"@,
            r@.description == "GETs all resources on the web server"@,
            r@.required_endpoints == seq!["/time"@],
            r@.kind == CommandKind::Spider,
    {
        let mut eps: Vec<String> = Vec::new();
        eps.push("/time".to_owned());
        let r = Command {
            cmd: "spider".to_owned(),
            description: "GETs all resources on the web server".to_owned(),
            required_endpoints: eps,
            kind: CommandKind::Spider,
        };
        assert(r@.required_endpoints =~= seq!["/time"@]);
        r
    }

    /// Pops the next resource, notes the line to show and returns its GET;
    /// `None` when none is pending.
    fn advance(&mut self) -> (r: Option<RequestPlan>)
        requires
            queue_wf(old(self)@.queue),
        ensures
            queue_wf(final(self)@.queue),
            ({
                let (q, line, req) = spider_advance(old(self)@.queue);
                &&& final(self)@ == (SpiderView { queue: q, printed: old(self)@.printed + line, ..old(self)@ })
                &&& match r {
                    Some(p) => req == Some(p@),
                    None => req is None,
                }
            }),
    {
        proof {
            law_pop_keeps_wf(self@.queue);
        }
        match self.queue.pop() {
            None => {
                assert(self.printed@ =~= self.printed@ + Seq::<char>::empty());
                None
            },
            Some(current) => {
                let remaining = self.queue.pending.len();
                let line = getting_line_exec(current.as_str(), remaining);
                string_push_str(&mut self.printed, line.as_str());
                Some(RequestPlan::get(current.as_str()))
            },
        }
    }

    /// Starts the crawl for the command line `args`, which must be the
    /// command's name alone: `.well-known/core` is queued and its GET made
    /// ready.
    pub fn parse(args: &str) -> (r: Result<Self, String>)
        ensures
            args@ != "spider"@ ==> (r matches Err(e) && e@ == "Error executing command: spider takes no arguments"@),
            args@ == "spider"@ ==> (r matches Ok(s) && queue_wf(s@.queue) && ({
                let (q, line, req) = spider_advance(queue_push(OnceQueue::new_view(), ".well-known/core"@).0);
                s@ == (SpiderView { queue: q, printed: line, request: req, done: false })
            })),
    {
        if !same_text(args, "spider") {
            return Err("Error executing command: spider takes no arguments".to_owned());
        }
        let mut queue = OnceQueue::new();
        assert(queue@ == OnceQueue::new_view());
        proof {
            law_push_keeps_wf(queue@, ".well-known/core"@);
        }
        queue.push(".well-known/core");
        let mut s = Self { queue, printed: String::new(), request: None, done: false };
        let req = s.advance();
        assert(s.printed@ =~= Seq::<char>::empty() + s.printed@);
        s.request = req;
        Ok(s)
    }

    /// The first request, made ready by `parse`.
    pub fn init(&mut self) -> (r: RequestPlan)
        requires
            old(self)@.request is Some,
        ensures
            old(self)@.request == Some(r@),
            final(self)@ == (SpiderView { request: None, ..old(self)@ }),
    {
        match self.request.take() {
            Some(r) => r,
            None => RequestPlan::get(""),
        }
    }

    /// Takes the answer to the last GET (see `spider_absorb`) and moves on
    /// to the next resource (see `spider_advance`); `None` once none is
    /// left, and for every answer after that.
    pub fn handle(&mut self, response: &CoapMessage) -> (r: Option<RequestPlan>)
        requires
            queue_wf(old(self)@.queue),
        ensures
            queue_wf(final(self)@.queue),
            old(self)@.done ==> r is None && final(self)@ == old(self)@,
            !old(self)@.done ==> ({
                let (q1, found) = spider_absorb(old(self)@.queue, response@);
                let (q2, line, req) = spider_advance(q1);
                &&& final(self)@ == (SpiderView {
                    queue: q2,
                    printed: old(self)@.printed + found + line,
                    request: None,
                    done: req is None,
                })
                &&& match r {
                    Some(p) => req == Some(p@),
                    None => req is None,
                }
            }),
    {
        if self.done {
            return None;
        }
        self.request = None;
        self.absorb(response);
        let next = self.advance();
        self.done = next.is_none();
        next
    }

    /// Pushes the local links of a link-format answer and notes how many
    /// there were (see `spider_absorb`).
    fn absorb(&mut self, response: &CoapMessage)
        requires
            queue_wf(old(self)@.queue),
        ensures
            queue_wf(final(self)@.queue),
            ({
                let (q1, found) = spider_absorb(old(self)@.queue, response@);
                final(self)@ == (SpiderView { queue: q1, printed: old(self)@.printed + found, ..old(self)@ })
            }),
    {
        let listed = match &response.content_format {
            Some(c) => c.number == 40,
            None => false,
        };
        if response.class != CodeClass::Response || response.status_is_error || !listed {
            assert(self.printed@ =~= self.printed@ + Seq::<char>::empty());
            return;
        }
        let text = match str_from_utf8(response.payload.as_slice()) {
            Some(t) => t,
            None => {
                assert(self.printed@ =~= self.printed@ + Seq::<char>::empty());
                return;
            },
        };
        let links = parse_link_format(text.as_str());
        let ghost items = links@.map_values(|l: Option<Link>| link_item(l));
        let ghost q0 = self@.queue;
        let mut found: usize = 0;
        let mut fresh: usize = 0;
        let mut i: usize = 0;
        while i < links.len()
            invariant
                i <= links.len(),
                items == links@.map_values(|l: Option<Link>| link_item(l)),
                (self@.queue, found as nat, fresh as nat) == absorb(q0, items.take(i as int)),
                found <= i,
                fresh <= found,
                self@ == (SpiderView { queue: self@.queue, ..old(self)@ }),
                queue_wf(self@.queue),
            decreases links.len() - i,
        {
            assert(items.take(i + 1).drop_last() =~= items.take(i as int));
            assert(items.take(i + 1).last() == link_item(links@[i as int]));
            let target = if anchor_can_be_unquoted(&links[i]) {
                find_local_target(&links[i])
            } else {
                Err(LinkError::BadReference)
            };
            match target {
                Ok(h) => {
                    proof {
                        law_push_keeps_wf(self@.queue, h@);
                    }
                    let new = self.queue.push(h.as_str());
                    found = found + 1;
                    if new {
                        fresh = fresh + 1;
                    }
                },
                Err(_) => {},
            }
            i = i + 1;
        }
        assert(items.take(links.len() as int) =~= items);
        string_push_str(&mut self.printed, "[spider] Found ");
        string_push_str(&mut self.printed, decimal(found as u64).as_str());
        string_push_str(&mut self.printed, " links, thereof ");
        string_push_str(&mut self.printed, decimal(fresh as u64).as_str());
        string_push_str(&mut self.printed, " new.\n");
        proof {
            let before = old(self)@.printed;
            assert(self@.printed =~= before + found_line(found as nat, fresh as nat));
        }
    }

    /// Whether there is text to show.
    pub fn want_display(&self) -> (r: bool)
        ensures
            r == (self@.printed.len() > 0),
    {
        !self.printed.as_str().is_empty()
    }

    /// The crawl is never reported finished: the handler runs for as long
    /// as answers come.
    pub fn is_finished(&self) -> (r: bool)
        ensures
            r == false,
    {
        false
    }

    /// Moves the text not shown yet into `buffer`.
    pub fn display(&mut self, buffer: &mut String)
        ensures
            final(buffer)@ == old(buffer)@ + old(self)@.printed,
            final(self)@ == (SpiderView { printed: Seq::empty(), ..old(self)@ }),
    {
        string_push_str(buffer, self.printed.as_str());
        self.printed = String::new();
    }
}

impl OnceQueue {
    /// An empty queue as a value.
    pub open spec fn new_view() -> OnceQueueView {
        OnceQueueView { seen: Seq::empty(), pending: Seq::empty() }
    }
}

} // verus!
