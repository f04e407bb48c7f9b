//! DIDL-Lite: the catalog entries of a ContentDirectory listing.
use vstd::prelude::*;

use crate::text::{occurs_at, chars_of, find, str_eq, string_of, substring, first_occurrence, lemma_first_occurrence};
use crate::xml::{
    attribute_lookup, attribute_value, attributes_view, events_view, xml_events, xml_events_of,
    XmlEvent, XmlEventView,
};

verus! {

/// One catalog entry: a container (a folder) or an item (a playable resource).
#[derive(Debug, Clone)]
pub struct DidlEntry {
    pub id: String,
    pub title: String,
    pub is_container: bool,
    pub resource_url: Option<String>,
    pub size: Option<u64>,
    pub duration: Option<String>,
    pub format: Option<String>,
}

pub struct DidlEntryView {
    pub id: Seq<char>,
    pub title: Seq<char>,
    pub is_container: bool,
    pub resource_url: Option<Seq<char>>,
    pub size: Option<u64>,
    pub duration: Option<Seq<char>>,
    pub format: Option<Seq<char>>,
}

pub open spec fn opt_view(o: Option<String>) -> Option<Seq<char>> {
    match o {
        Some(s) => Some(s@),
        None => None,
    }
}

impl View for DidlEntry {
    type V = DidlEntryView;

    open spec fn view(&self) -> DidlEntryView {
        DidlEntryView {
            id: self.id@,
            title: self.title@,
            is_container: self.is_container,
            resource_url: opt_view(self.resource_url),
            size: self.size,
            duration: opt_view(self.duration),
            format: opt_view(self.format),
        }
    }
}

pub open spec fn entries_view(v: Seq<DidlEntry>) -> Seq<DidlEntryView> {
    Seq::new(v.len(), |i: int| v[i]@)
}

pub open spec fn pairs_view(v: Seq<(String, String)>) -> Seq<(Seq<char>, Seq<char>)> {
    Seq::new(v.len(), |i: int| (v[i].0@, v[i].1@))
}

// ---------------------------------------------------------------- numbers and fields

pub open spec fn is_digit(c: char) -> bool {
    '0' <= c && c <= '9'
}

pub open spec fn all_digits(s: Seq<char>) -> bool {
    forall|i: int| 0 <= i < s.len() ==> is_digit(#[trigger] s[i])
}

/// The number that a string of decimal digits denotes.
pub open spec fn digits_value(s: Seq<char>) -> nat
    decreases s.len(),
{
    if s.len() == 0 {
        0
    } else {
        digits_value(s.drop_last()) * 10 + ((s.last() as nat) - ('0' as nat)) as nat
    }
}

/// What `u64::from_str` accepts: an optional `+`, then one or more decimal digits, of a
/// value that fits in 64 bits.
pub open spec fn parse_u64_spec(s: Seq<char>) -> Option<u64> {
    let d = if s.len() > 0 && s[0] == '+' { s.drop_first() } else { s };
    if d.len() > 0 && all_digits(d) && digits_value(d) <= u64::MAX {
        Some(digits_value(d) as u64)
    } else {
        None
    }
}

/// Parses an unsigned decimal number as `u64::from_str` does.
pub fn parse_u64(s: &str) -> (r: Option<u64>)
    ensures
        r == parse_u64_spec(s@),
{
    let v = chars_of(s);
    let start: usize = if v.len() > 0 && v[0] == '+' { 1 } else { 0 };
    let ghost d = if s@.len() > 0 && s@[0] == '+' { s@.drop_first() } else { s@ };
    assert(d =~= v@.subrange(start as int, v.len() as int));
    if start >= v.len() {
        return None;
    }
    let mut acc: u64 = 0;
    let mut i = start;
    while i < v.len()
        invariant
            start <= i <= v.len(),
            start < v.len(),
            v@ == s@,
            d == (if s@.len() > 0 && s@[0] == '+' { s@.drop_first() } else { s@ }),
            d == v@.subrange(start as int, v.len() as int),
            all_digits(v@.subrange(start as int, i as int)),
            acc as nat == digits_value(v@.subrange(start as int, i as int)),
        decreases v.len() - i,
    {
        let c = v[i];
        if !('0' <= c && c <= '9') {
            assert(d[i - start] == c);
            assert(!is_digit(d[i - start]));
            return None;
        }
        let digit = (c as u32 - '0' as u32) as u64;
        assert(v@.subrange(start as int, i + 1).drop_last() =~= v@.subrange(start as int, i as int));
        if acc > 1844674407370955161 || (acc == 1844674407370955161 && digit > 5) {
            proof {
                assert(d.subrange(0, i - start + 1) =~= v@.subrange(start as int, i + 1));
                if all_digits(d) {
                    lemma_digits_value_prefix(d, (i - start + 1) as nat);
                }
            }
            return None;
        }
        acc = acc * 10 + digit;
        i = i + 1;
        assert(all_digits(v@.subrange(start as int, i as int)));
    }
    assert(v@.subrange(start as int, i as int) =~= d);
    Some(acc)
}

/// A prefix never denotes more than the whole string of digits.
proof fn lemma_digits_value_prefix(s: Seq<char>, n: nat)
    requires
        n <= s.len(),
        all_digits(s),
    ensures
        digits_value(s.subrange(0, n as int)) <= digits_value(s),
    decreases s.len() - n,
{
    if n < s.len() {
        lemma_digits_value_prefix(s, n + 1);
        assert(s.subrange(0, n as int + 1).drop_last() =~= s.subrange(0, n as int));
        assert(is_digit(s[n as int]));
    } else {
        assert(s.subrange(0, n as int) =~= s);
    }
}

/// The field of index `k` when `s` is split at each `:`.
pub open spec fn colon_field(s: Seq<char>, k: nat) -> Option<Seq<char>>
    decreases k,
{
    match first_occurrence(s, seq![':']) {
        None => if k == 0 { Some(s) } else { None },
        Some(i) => if k == 0 {
            Some(s.subrange(0, i))
        } else {
            colon_field(s.subrange(i + 1, s.len() as int), (k - 1) as nat)
        },
    }
}

fn colon_field_of(s: &[char], k: usize) -> (r: Option<String>)
    ensures
        opt_view(r) == colon_field(s@, k as nat),
    decreases k,
{
    let colon = vec![':'];
    assert(colon@ =~= seq![':']);
    proof { lemma_first_occurrence(s@, seq![':']); }
    match find(s, colon.as_slice()) {
        None => if k == 0 {
            Some(string_of(s))
        } else {
            None
        },
        Some(i) => if k == 0 {
            Some(substring(s, 0, i))
        } else {
            assert(occurs_at(s@, seq![':'], i as int));
            let rest = &s[i + 1..s.len()];
            assert(rest@ =~= s@.subrange(i + 1, s@.len() as int));
            colon_field_of(rest, k - 1)
        },
    }
}

/// The coarse format label of a `protocolInfo` value: its third `:`-separated field.
pub fn protocol_format(protocol_info: &str) -> (r: Option<String>)
    ensures
        opt_view(r) == colon_field(protocol_info@, 2),
{
    let v = chars_of(protocol_info);
    colon_field_of(v.as_slice(), 2)
}

// ---------------------------------------------------------------- the forward pass

pub struct DidlState {
    pub current: Option<DidlEntryView>,
    pub in_title: bool,
    pub in_res: bool,
    pub current_title: Seq<char>,
    pub entries: Seq<DidlEntryView>,
    pub mappings: Seq<(Seq<char>, Seq<char>)>,
    pub failed: bool,
}

pub open spec fn initial_state() -> DidlState {
    DidlState {
        current: None,
        in_title: false,
        in_res: false,
        current_title: Seq::empty(),
        entries: Seq::empty(),
        mappings: Seq::empty(),
        failed: false,
    }
}

pub open spec fn fresh_entry(attrs: Seq<(Seq<char>, Seq<char>)>, is_container: bool) -> DidlEntryView {
    DidlEntryView {
        id: match attribute_lookup(attrs, "id"@) {
            Some(v) => v,
            None => Seq::empty(),
        },
        title: Seq::empty(),
        is_container,
        resource_url: None,
        size: None,
        duration: None,
        format: None,
    }
}

/// The entry with what a `<res>` tag's attributes say of the resource.
pub open spec fn with_resource(e: DidlEntryView, attrs: Seq<(Seq<char>, Seq<char>)>) -> DidlEntryView {
    DidlEntryView {
        size: match attribute_lookup(attrs, "size"@) {
            Some(v) => parse_u64_spec(v),
            None => None,
        },
        duration: attribute_lookup(attrs, "duration"@),
        format: match attribute_lookup(attrs, "protocolInfo"@) {
            Some(v) => colon_field(v, 2),
            None => None,
        },
        ..e
    }
}

/// The effect of one event on the pass.
pub open spec fn didl_step(st: DidlState, ev: XmlEventView) -> DidlState {
    match ev {
        XmlEventView::Start(name, attrs) => if name == "container"@ {
            DidlState { current: Some(fresh_entry(attrs, true)), current_title: Seq::empty(), ..st }
        } else if name == "item"@ {
            DidlState { current: Some(fresh_entry(attrs, false)), ..st }
        } else if name == "dc:title"@ {
            DidlState { in_title: true, ..st }
        } else if name == "res"@ {
            DidlState {
                in_res: true,
                current: match st.current {
                    Some(e) => Some(with_resource(e, attrs)),
                    None => None,
                },
                ..st
            }
        } else {
            st
        },
        XmlEventView::Text(t) => if st.in_title {
            DidlState {
                current_title: t,
                current: match st.current {
                    Some(e) => Some(DidlEntryView { title: t, ..e }),
                    None => None,
                },
                ..st
            }
        } else if st.in_res {
            DidlState {
                current: match st.current {
                    Some(e) => Some(DidlEntryView { resource_url: Some(t), ..e }),
                    None => None,
                },
                ..st
            }
        } else {
            st
        },
        XmlEventView::End(name) => if name == "container"@ {
            match st.current {
                Some(e) => DidlState {
                    current: None,
                    entries: st.entries.push(e),
                    mappings: if st.current_title.len() > 0 {
                        st.mappings.push((st.current_title, e.id))
                    } else {
                        st.mappings
                    },
                    ..st
                },
                None => st,
            }
        } else if name == "item"@ {
            match st.current {
                Some(e) => DidlState { current: None, entries: st.entries.push(e), ..st },
                None => st,
            }
        } else if name == "dc:title"@ {
            DidlState { in_title: false, ..st }
        } else if name == "res"@ {
            DidlState { in_res: false, ..st }
        } else {
            st
        },
        XmlEventView::Malformed => DidlState { failed: true, ..st },
        _ => st,
    }
}

/// The state after a forward pass over `evs`.
pub open spec fn didl_fold(evs: Seq<XmlEventView>) -> DidlState
    decreases evs.len(),
{
    if evs.len() == 0 {
        initial_state()
    } else {
        didl_step(didl_fold(evs.drop_last()), evs.last())
    }
}

/// The listing that a DIDL-Lite event stream describes: the entries in document order and
/// a `(title, id)` pair for each container with a non-empty title; `None` for a malformed one.
pub open spec fn didl_listing(evs: Seq<XmlEventView>) -> Option<
    (Seq<DidlEntryView>, Seq<(Seq<char>, Seq<char>)>),
> {
    let st = didl_fold(evs);
    if st.failed {
        None
    } else {
        Some((st.entries, st.mappings))
    }
}

/// The pass in progress.
struct DidlPass {
    current: Option<DidlEntry>,
    in_title: bool,
    in_res: bool,
    current_title: String,
    entries: Vec<DidlEntry>,
    mappings: Vec<(String, String)>,
    failed: bool,
}

impl View for DidlPass {
    type V = DidlState;

    closed spec fn view(&self) -> DidlState {
        DidlState {
            current: match self.current {
                Some(e) => Some(e@),
                None => None,
            },
            in_title: self.in_title,
            in_res: self.in_res,
            current_title: self.current_title@,
            entries: entries_view(self.entries@),
            mappings: pairs_view(self.mappings@),
            failed: self.failed,
        }
    }
}

fn new_entry(attrs: &Vec<crate::xml::XmlAttribute>, is_container: bool) -> (r: DidlEntry)
    ensures
        r@ == fresh_entry(attributes_view(attrs@), is_container),
{
    let id = match attribute_value(attrs, "id") {
        Some(v) => v,
        None => String::new(),
    };
    DidlEntry {
        id,
        title: String::new(),
        is_container,
        resource_url: None,
        size: None,
        duration: None,
        format: None,
    }
}

fn read_resource(e: &mut DidlEntry, attrs: &Vec<crate::xml::XmlAttribute>)
    ensures
        final(e)@ == with_resource(old(e)@, attributes_view(attrs@)),
{
    e.size = match attribute_value(attrs, "size") {
        Some(v) => parse_u64(v.as_str()),
        None => None,
    };
    e.duration = attribute_value(attrs, "duration");
    e.format = match attribute_value(attrs, "protocolInfo") {
        Some(v) => protocol_format(v.as_str()),
        None => None,
    };
}

fn take_text(t: &String) -> (r: String)
    ensures
        r@ == t@,
{
    String::from_str(t.as_str())
}

impl DidlPass {
    fn step(&mut self, ev: &XmlEvent)
        ensures
            final(self)@ == didl_step(old(self)@, ev@),
    {
        match ev {
            XmlEvent::Start(name, attrs) => {
                if str_eq(name.as_str(), "container") {
                    self.current = Some(new_entry(attrs, true));
                    self.current_title = String::new();
                } else if str_eq(name.as_str(), "item") {
                    self.current = Some(new_entry(attrs, false));
                } else if str_eq(name.as_str(), "dc:title") {
                    self.in_title = true;
                } else if str_eq(name.as_str(), "res") {
                    self.in_res = true;
                    match &mut self.current {
                        Some(e) => read_resource(e, attrs),
                        None => {},
                    }
                }
            },
            XmlEvent::Text(t) => {
                if self.in_title {
                    self.current_title = take_text(t);
                    match &mut self.current {
                        Some(e) => {
                            e.title = take_text(t);
                        },
                        None => {},
                    }
                } else if self.in_res {
                    match &mut self.current {
                        Some(e) => {
                            e.resource_url = Some(take_text(t));
                        },
                        None => {},
                    }
                }
            },
            XmlEvent::End(name) => {
                if str_eq(name.as_str(), "container") {
                    let cur = self.current.take();
                    match cur {
                        Some(e) => {
                            if !self.current_title.as_str().is_empty() {
                                let pair = (take_text(&self.current_title), take_text(&e.id));
                                self.mappings.push(pair);
                                assert(pairs_view(self.mappings@) =~= pairs_view(
                                    old(self).mappings@,
                                ).push((old(self).current_title@, e.id@)));
                            }
                            self.entries.push(e);
                            assert(entries_view(self.entries@) =~= entries_view(
                                old(self).entries@,
                            ).push(e@));
                        },
                        None => {},
                    }
                } else if str_eq(name.as_str(), "item") {
                    let cur = self.current.take();
                    match cur {
                        Some(e) => {
                            self.entries.push(e);
                            assert(entries_view(self.entries@) =~= entries_view(
                                old(self).entries@,
                            ).push(e@));
                        },
                        None => {},
                    }
                } else if str_eq(name.as_str(), "dc:title") {
                    self.in_title = false;
                } else if str_eq(name.as_str(), "res") {
                    self.in_res = false;
                }
            },
            XmlEvent::Malformed => {
                self.failed = true;
            },
            _ => {},
        }
    }
}

/// The listing described by a stream of XML events, read in one forward pass.
pub fn didl_from_events(evs: &Vec<XmlEvent>) -> (r: Option<(Vec<DidlEntry>, Vec<(String, String)>)>)
    ensures
        r matches Some(p) ==> didl_listing(events_view(evs@)) == Some(
            (entries_view(p.0@), pairs_view(p.1@)),
        ),
        r is None ==> didl_listing(events_view(evs@)) is None,
{
    let mut pass = DidlPass {
        current: None,
        in_title: false,
        in_res: false,
        current_title: String::new(),
        entries: Vec::new(),
        mappings: Vec::new(),
        failed: false,
    };
    assert(pass@.entries =~= Seq::<DidlEntryView>::empty());
    assert(pass@.mappings =~= Seq::<(Seq<char>, Seq<char>)>::empty());
    assert(events_view(evs@).subrange(0, 0) =~= Seq::<XmlEventView>::empty());
    let mut i: usize = 0;
    while i < evs.len()
        invariant
            i <= evs.len(),
            pass@ == didl_fold(events_view(evs@).subrange(0, i as int)),
        decreases evs.len() - i,
    {
        pass.step(&evs[i]);
        assert(events_view(evs@).subrange(0, i + 1).drop_last() =~= events_view(evs@).subrange(
            0,
            i as int,
        ));
        i = i + 1;
    }
    assert(events_view(evs@).subrange(0, i as int) =~= events_view(evs@));
    if pass.failed {
        None
    } else {
        Some((pass.entries, pass.mappings))
    }
}

/// Parses a DIDL-Lite document into its entries and its `(title, container id)` pairs;
/// `None` where the document is not well-formed.
pub fn parse_didl(didl_xml: &str) -> (r: Option<(Vec<DidlEntry>, Vec<(String, String)>)>)
    ensures
        r matches Some(p) ==> didl_listing(xml_events_of(didl_xml@)) == Some(
            (entries_view(p.0@), pairs_view(p.1@)),
        ),
        r is None ==> didl_listing(xml_events_of(didl_xml@)) is None,
{
    let evs = xml_events(didl_xml);
    didl_from_events(&evs)
}

} // verus!
