//! Reading a .docx: effective paragraph formatting (docDefaults, then the
//! paragraph style's basedOn chain, then direct formatting), the block
//! structure of the body, and per-run inline formatting.

use vstd::prelude::*;
use crate::xmlev::{XmlEvent, XmlAttr, EventView, events_view, attrs_view, xml_events};
use crate::text::{
    chars_of, str_eq, parse_int32, parse_i32, string_of_range, lower_seq, push_char,
};

verus! {

// ---------------------------------------------------------------------
// Formatting properties.
// ---------------------------------------------------------------------
/// Run and paragraph properties that the analysis resolves.
pub struct Props {
    pub ascii: Option<String>,
    pub east: Option<String>,
    pub sz: Option<String>,
    pub bold: Option<bool>,
    pub italic: Option<bool>,
    pub vertical_align: Option<String>,
    pub jc: Option<String>,
    /// Heading level from `w:outlineLvl` (the value plus one).
    pub outline: Option<i32>,
}

pub struct PropsView {
    pub ascii: Option<Seq<char>>,
    pub east: Option<Seq<char>>,
    pub sz: Option<Seq<char>>,
    pub bold: Option<bool>,
    pub italic: Option<bool>,
    pub vertical_align: Option<Seq<char>>,
    pub jc: Option<Seq<char>>,
    pub outline: Option<i32>,
}

pub open spec fn osv(o: Option<String>) -> Option<Seq<char>> {
    match o {
        Some(s) => Some(s@),
        None => None,
    }
}

impl View for Props {
    type V = PropsView;

    open spec fn view(&self) -> PropsView {
        PropsView {
            ascii: osv(self.ascii),
            east: osv(self.east),
            sz: osv(self.sz),
            bold: self.bold,
            italic: self.italic,
            vertical_align: osv(self.vertical_align),
            jc: osv(self.jc),
            outline: self.outline,
        }
    }
}

pub open spec fn empty_props() -> PropsView {
    PropsView { ascii: None, east: None, sz: None, bold: None, italic: None, vertical_align: None, jc: None, outline: None }
}

/// `o` where it is set, `base` elsewhere.
pub open spec fn over<T>(base: Option<T>, o: Option<T>) -> Option<T> {
    match o {
        Some(v) => Some(v),
        None => base,
    }
}

/// `base` with every property that `o` sets replaced by `o`'s.
pub open spec fn overlaid(base: PropsView, o: PropsView) -> PropsView {
    PropsView {
        ascii: over(base.ascii, o.ascii),
        east: over(base.east, o.east),
        sz: over(base.sz, o.sz),
        bold: over(base.bold, o.bold),
        italic: over(base.italic, o.italic),
        vertical_align: over(base.vertical_align, o.vertical_align),
        jc: over(base.jc, o.jc),
        outline: over(base.outline, o.outline),
    }
}

fn clone_os(o: &Option<String>) -> (r: Option<String>)
    ensures
        osv(r) == osv(*o),
{
    match o {
        Some(s) => Some(s.clone()),
        None => None,
    }
}

impl Props {
    pub fn new() -> (r: Self)
        ensures
            r@ == empty_props(),
    {
        Props { ascii: None, east: None, sz: None, bold: None, italic: None, vertical_align: None, jc: None, outline: None }
    }

    pub fn duplicate(&self) -> (r: Self)
        ensures
            r@ == self@,
    {
        Props {
            ascii: clone_os(&self.ascii),
            east: clone_os(&self.east),
            sz: clone_os(&self.sz),
            bold: self.bold,
            italic: self.italic,
            vertical_align: clone_os(&self.vertical_align),
            jc: clone_os(&self.jc),
            outline: self.outline,
        }
    }

    /// Lays `o` over `self`: every property `o` sets wins.
    pub fn overlay(&mut self, o: &Props)
        ensures
            final(self)@ == overlaid(old(self)@, o@),
    {
        if o.ascii.is_some() {
            self.ascii = clone_os(&o.ascii);
        }
        if o.east.is_some() {
            self.east = clone_os(&o.east);
        }
        if o.sz.is_some() {
            self.sz = clone_os(&o.sz);
        }
        if o.bold.is_some() {
            self.bold = o.bold;
        }
        if o.italic.is_some() {
            self.italic = o.italic;
        }
        if o.vertical_align.is_some() {
            self.vertical_align = clone_os(&o.vertical_align);
        }
        if o.jc.is_some() {
            self.jc = clone_os(&o.jc);
        }
        if o.outline.is_some() {
            self.outline = o.outline;
        }
    }
}

/// Laying properties over is associative, and the empty set of properties
/// changes nothing on either side.
pub proof fn overlay_laws(a: PropsView, b: PropsView, c: PropsView)
    ensures
        overlaid(overlaid(a, b), c) == overlaid(a, overlaid(b, c)),
        overlaid(a, empty_props()) == a,
        overlaid(empty_props(), a) == a,
{
}

// ---------------------------------------------------------------------
// Names and attributes.
// ---------------------------------------------------------------------
/// Index of the first `:` at or after `i`, or the length.
pub open spec fn colon_at(s: Seq<char>, i: int) -> int
    decreases s.len() - i,
{
    if i < 0 || i >= s.len() {
        s.len() as int
    } else if s[i] == ':' {
        i
    } else {
        colon_at(s, i + 1)
    }
}

/// The local part of a qualified name: what follows the first `:`.
pub open spec fn local_name(s: Seq<char>) -> Seq<char> {
    let c = colon_at(s, 0);
    if c < s.len() {
        s.skip(c + 1)
    } else {
        s
    }
}

proof fn lemma_colon_at(s: Seq<char>, i: int)
    requires
        0 <= i <= s.len(),
    ensures
        i <= colon_at(s, i) <= s.len(),
    decreases s.len() - i,
{
    if i < s.len() && s[i] != ':' {
        lemma_colon_at(s, i + 1);
    }
}

/// `local`: the name after its namespace prefix.
pub fn local(name: &str) -> (r: String)
    ensures
        r@ == local_name(name@),
{
    let v = chars_of(name);
    let mut i: usize = 0;
    proof {
        lemma_colon_at(v@, 0);
    }
    while i < v.len() && v[i] != ':'
        invariant
            i <= v@.len(),
            colon_at(v@, i as int) == colon_at(v@, 0),
        decreases v.len() - i,
    {
        i += 1;
    }
    if i < v.len() {
        assert(v@.subrange(i + 1, v@.len() as int) == v@.skip(i + 1));
        string_of_range(&v, i + 1, v.len())
    } else {
        assert(v@.subrange(0, v@.len() as int) == v@);
        string_of_range(&v, 0, v.len())
    }
}

/// Whether the local part of `name` is `l`.
pub fn local_is(name: &str, l: &str) -> (r: bool)
    ensures
        r == (local_name(name@) == l@),
{
    let n = local(name);
    str_eq(n.as_str(), l)
}

/// The value of the first attribute whose local name is `key`.
pub open spec fn attr_value(attrs: Seq<(Seq<char>, Seq<char>)>, key: Seq<char>) -> Option<Seq<char>>
    decreases attrs.len(),
{
    if attrs.len() == 0 {
        None
    } else if local_name(attrs[0].0) == key {
        Some(attrs[0].1)
    } else {
        attr_value(attrs.drop_first(), key)
    }
}

/// `attr`: the value of the tag's first attribute whose local name is `key`.
pub fn attr(attrs: &Vec<XmlAttr>, key: &str) -> (r: Option<String>)
    ensures
        osv(r) == attr_value(attrs_view(attrs@), key@),
{
    let ghost all = attrs_view(attrs@);
    assert(all.skip(0) == all);
    let mut i: usize = 0;
    while i < attrs.len()
        invariant
            i <= attrs@.len(),
            all == attrs_view(attrs@),
            attr_value(all, key@) == attr_value(all.skip(i as int), key@),
        decreases attrs.len() - i,
    {
        let ghost rest = all.skip(i as int);
        assert(rest[0] == (attrs@[i as int].key@, attrs@[i as int].value@));
        if local_is(attrs[i].key.as_str(), key) {
            return Some(attrs[i].value.clone());
        }
        assert(rest.drop_first() == all.skip(i + 1));
        i += 1;
    }
    assert(all.skip(i as int).len() == 0);
    None
}

// ---------------------------------------------------------------------
// Property scopes.
// ---------------------------------------------------------------------
/// `Some(true)` unless the value is "0" or "false".
pub open spec fn toggle_value(v: Option<Seq<char>>) -> Option<bool> {
    Some(!(v == Some("0"@) || v == Some("false"@)))
}

/// `outlineLvl`: the parsed level plus one (wrapping), or nothing.
pub open spec fn outline_value(v: Seq<char>) -> Option<i32> {
    match parse_i32(v) {
        Some(x) => Some(if x == i32::MAX { i32::MIN } else { (x + 1) as i32 }),
        None => None,
    }
}

/// The properties after one start or empty tag inside a property scope.
pub open spec fn props_tag(p: PropsView, l: Seq<char>, a: Seq<(Seq<char>, Seq<char>)>) -> PropsView {
    if l == "rFonts"@ {
        PropsView {
            ascii: over(p.ascii, attr_value(a, "ascii"@)),
            east: over(p.east, attr_value(a, "eastAsia"@)),
            ..p
        }
    } else if l == "sz"@ {
        PropsView { sz: over(p.sz, attr_value(a, "val"@)), ..p }
    } else if l == "b"@ {
        PropsView { bold: toggle_value(attr_value(a, "val"@)), ..p }
    } else if l == "i"@ {
        PropsView { italic: toggle_value(attr_value(a, "val"@)), ..p }
    } else if l == "vertAlign"@ {
        PropsView { vertical_align: over(p.vertical_align, attr_value(a, "val"@)), ..p }
    } else if l == "jc"@ {
        PropsView { jc: over(p.jc, attr_value(a, "val"@)), ..p }
    } else if l == "outlineLvl"@ {
        match attr_value(a, "val"@) {
            Some(v) => PropsView { outline: outline_value(v), ..p },
            None => p,
        }
    } else {
        p
    }
}

/// Reading a property scope from event `pos` up to the end tag whose local
/// name is `end`: the position after it and the properties.
pub open spec fn props_scan(ev: Seq<EventView>, pos: int, end: Seq<char>, p: PropsView) -> (int, PropsView)
    decreases ev.len() - pos,
{
    if pos < 0 || pos >= ev.len() {
        (pos, p)
    } else {
        match ev[pos] {
            EventView::Start(n, a) => props_scan(ev, pos + 1, end, props_tag(p, local_name(n), a)),
            EventView::Empty(n, a) => props_scan(ev, pos + 1, end, props_tag(p, local_name(n), a)),
            EventView::End(n) => if local_name(n) == end {
                (pos + 1, p)
            } else {
                props_scan(ev, pos + 1, end, p)
            },
            _ => props_scan(ev, pos + 1, end, p),
        }
    }
}

fn toggle(v: Option<String>) -> (r: Option<bool>)
    ensures
        r == toggle_value(osv(v)),
{
    match v {
        Some(s) => Some(!(str_eq(s.as_str(), "0") || str_eq(s.as_str(), "false"))),
        None => Some(true),
    }
}

fn outline_of(v: &String) -> (r: Option<i32>)
    ensures
        r == outline_value(v@),
{
    match parse_int32(v.as_str()) {
        Some(x) => Some(x.wrapping_add(1)),
        None => None,
    }
}

fn apply_tag(p: &mut Props, name: &String, a: &Vec<XmlAttr>)
    ensures
        final(p)@ == props_tag(old(p)@, local_name(name@), attrs_view(a@)),
{
    let l = local(name.as_str());
    let l = l.as_str();
    if str_eq(l, "rFonts") {
        if let Some(v) = attr(a, "ascii") {
            p.ascii = Some(v);
        }
        if let Some(v) = attr(a, "eastAsia") {
            p.east = Some(v);
        }
    } else if str_eq(l, "sz") {
        if let Some(v) = attr(a, "val") {
            p.sz = Some(v);
        }
    } else if str_eq(l, "b") {
        p.bold = toggle(attr(a, "val"));
    } else if str_eq(l, "i") {
        p.italic = toggle(attr(a, "val"));
    } else if str_eq(l, "vertAlign") {
        if let Some(v) = attr(a, "val") {
            p.vertical_align = Some(v);
        }
    } else if str_eq(l, "jc") {
        if let Some(v) = attr(a, "val") {
            p.jc = Some(v);
        }
    } else if str_eq(l, "outlineLvl") {
        if let Some(v) = attr(a, "val") {
            p.outline = outline_of(&v);
        }
    }
}

/// Reads a property scope (`rPr`/`pPr`) from `pos` through its end tag
/// `end_local`, folding the recognised children into `p`. Returns the
/// position after the scope.
pub fn parse_props(ev: &Vec<XmlEvent>, pos: usize, end_local: &str, p: &mut Props) -> (r: usize)
    requires
        pos <= ev@.len(),
    ensures
        (r as int, final(p)@) == props_scan(events_view(ev@), pos as int, end_local@, old(p)@),
        pos <= r <= ev@.len(),
{
    let ghost evs = events_view(ev@);
    let ghost goal = props_scan(evs, pos as int, end_local@, p@);
    let mut i = pos;
    while i < ev.len()
        invariant
            pos <= i <= ev@.len(),
            evs == events_view(ev@),
            goal == props_scan(evs, pos as int, end_local@, old(p)@),
            goal == props_scan(evs, i as int, end_local@, p@),
        decreases ev.len() - i,
    {
        assert(evs[i as int] == ev@[i as int]@);
        match &ev[i] {
            XmlEvent::Start(n, a) => apply_tag(p, n, a),
            XmlEvent::Empty(n, a) => apply_tag(p, n, a),
            XmlEvent::End(n) => {
                if local_is(n.as_str(), end_local) {
                    assert(evs[i as int] == EventView::End(n@));
                    assert(props_scan(evs, i as int, end_local@, p@) == (i + 1, p@));
                    return i + 1;
                }
            },
            _ => {},
        }
        i += 1;
    }
    i
}

pub proof fn lemma_props_scan(ev: Seq<EventView>, pos: int, end: Seq<char>, p: PropsView)
    requires
        0 <= pos <= ev.len(),
    ensures
        pos <= props_scan(ev, pos, end, p).0 <= ev.len(),
    decreases ev.len() - pos,
{
    if pos < ev.len() {
        match ev[pos] {
            EventView::Start(n, a) => lemma_props_scan(ev, pos + 1, end, props_tag(p, local_name(n), a)),
            EventView::Empty(n, a) => lemma_props_scan(ev, pos + 1, end, props_tag(p, local_name(n), a)),
            EventView::End(n) => if local_name(n) != end {
                lemma_props_scan(ev, pos + 1, end, p)
            },
            _ => lemma_props_scan(ev, pos + 1, end, p),
        }
    }
}

// ---------------------------------------------------------------------
// styles.xml
// ---------------------------------------------------------------------
pub struct StyleDef {
    pub name: Option<String>,
    pub based_on: Option<String>,
    pub props: Props,
}

pub struct StyleView {
    pub name: Option<Seq<char>>,
    pub based_on: Option<Seq<char>>,
    pub props: PropsView,
}

impl View for StyleDef {
    type V = StyleView;

    open spec fn view(&self) -> StyleView {
        StyleView { name: osv(self.name), based_on: osv(self.based_on), props: self.props@ }
    }
}

/// Style definitions in the order they were read; a later definition of an
/// id replaces an earlier one.
pub struct StyleEntry {
    pub id: String,
    pub def: StyleDef,
}

pub open spec fn styles_view(v: Seq<StyleEntry>) -> Seq<(Seq<char>, StyleView)> {
    v.map_values(|e: StyleEntry| (e.id@, e.def@))
}

pub open spec fn empty_style() -> StyleView {
    StyleView { name: None, based_on: None, props: empty_props() }
}

/// The run properties of `<w:rPrDefault>` from `pos` to its end tag.
pub open spec fn rpr_default_scan(ev: Seq<EventView>, pos: int, d: PropsView) -> (int, PropsView)
    decreases ev.len() - pos,
{
    if pos < 0 || pos >= ev.len() {
        (pos, d)
    } else {
        match ev[pos] {
            EventView::Start(n, a) => if local_name(n) == "rPr"@ {
                let (p2, d2) = props_scan(ev, pos + 1, "rPr"@, d);
                proof {
                    lemma_props_scan(ev, pos + 1, "rPr"@, d);
                }
                rpr_default_scan(ev, p2, d2)
            } else {
                rpr_default_scan(ev, pos + 1, d)
            },
            EventView::End(n) => if local_name(n) == "rPrDefault"@ {
                (pos + 1, d)
            } else {
                rpr_default_scan(ev, pos + 1, d)
            },
            _ => rpr_default_scan(ev, pos + 1, d),
        }
    }
}

/// The children of one `<w:style>` from `pos` to its end tag.
pub open spec fn style_scan(ev: Seq<EventView>, pos: int, def: StyleView) -> (int, StyleView)
    decreases ev.len() - pos,
{
    if pos < 0 || pos >= ev.len() {
        (pos, def)
    } else {
        let tag = match ev[pos] {
            EventView::Start(n, a) => Some((local_name(n), a)),
            EventView::Empty(n, a) => Some((local_name(n), a)),
            _ => None,
        };
        match tag {
            Some((l, a)) => if l == "name"@ {
                style_scan(ev, pos + 1, StyleView { name: attr_value(a, "val"@), ..def })
            } else if l == "basedOn"@ {
                style_scan(ev, pos + 1, StyleView { based_on: attr_value(a, "val"@), ..def })
            } else if l == "rPr"@ || l == "pPr"@ {
                let (p2, props) = props_scan(ev, pos + 1, l, def.props);
                proof {
                    lemma_props_scan(ev, pos + 1, l, def.props);
                }
                style_scan(ev, p2, StyleView { props, ..def })
            } else {
                style_scan(ev, pos + 1, def)
            },
            None => match ev[pos] {
                EventView::End(n) => if local_name(n) == "style"@ {
                    (pos + 1, def)
                } else {
                    style_scan(ev, pos + 1, def)
                },
                _ => style_scan(ev, pos + 1, def),
            },
        }
    }
}

pub proof fn lemma_rpr_default_scan(ev: Seq<EventView>, pos: int, d: PropsView)
    requires
        0 <= pos <= ev.len(),
    ensures
        pos <= rpr_default_scan(ev, pos, d).0 <= ev.len(),
    decreases ev.len() - pos,
{
    if pos < ev.len() {
        match ev[pos] {
            EventView::Start(n, a) => if local_name(n) == "rPr"@ {
                lemma_props_scan(ev, pos + 1, "rPr"@, d);
                let (p2, d2) = props_scan(ev, pos + 1, "rPr"@, d);
                lemma_rpr_default_scan(ev, p2, d2);
            } else {
                lemma_rpr_default_scan(ev, pos + 1, d);
            },
            EventView::End(n) => if local_name(n) != "rPrDefault"@ {
                lemma_rpr_default_scan(ev, pos + 1, d);
            },
            _ => lemma_rpr_default_scan(ev, pos + 1, d),
        }
    }
}

pub proof fn lemma_style_scan(ev: Seq<EventView>, pos: int, def: StyleView)
    requires
        0 <= pos <= ev.len(),
    ensures
        pos <= style_scan(ev, pos, def).0 <= ev.len(),
    decreases ev.len() - pos,
{
    if pos < ev.len() {
        let tag = match ev[pos] {
            EventView::Start(n, a) => Some((local_name(n), a)),
            EventView::Empty(n, a) => Some((local_name(n), a)),
            _ => None,
        };
        match tag {
            Some((l, a)) => if l == "name"@ {
                lemma_style_scan(ev, pos + 1, StyleView { name: attr_value(a, "val"@), ..def });
            } else if l == "basedOn"@ {
                lemma_style_scan(ev, pos + 1, StyleView { based_on: attr_value(a, "val"@), ..def });
            } else if l == "rPr"@ || l == "pPr"@ {
                lemma_props_scan(ev, pos + 1, l, def.props);
                let (p2, props) = props_scan(ev, pos + 1, l, def.props);
                lemma_style_scan(ev, p2, StyleView { props, ..def });
            } else {
                lemma_style_scan(ev, pos + 1, def);
            },
            None => match ev[pos] {
                EventView::End(n) => if local_name(n) != "style"@ {
                    lemma_style_scan(ev, pos + 1, def);
                },
                _ => lemma_style_scan(ev, pos + 1, def),
            },
        }
    }
}

/// The document defaults and the style definitions of styles.xml.
pub open spec fn styles_scan(
    ev: Seq<EventView>,
    pos: int,
    defaults: PropsView,
    styles: Seq<(Seq<char>, StyleView)>,
) -> (PropsView, Seq<(Seq<char>, StyleView)>)
    decreases ev.len() - pos,
{
    if pos < 0 || pos >= ev.len() {
        (defaults, styles)
    } else {
        match ev[pos] {
            EventView::Start(n, a) => if local_name(n) == "rPrDefault"@ {
                let (p2, d2) = rpr_default_scan(ev, pos + 1, defaults);
                proof {
                    lemma_rpr_default_scan(ev, pos + 1, defaults);
                }
                styles_scan(ev, p2, d2, styles)
            } else if local_name(n) == "style"@ {
                let id = match attr_value(a, "styleId"@) {
                    Some(v) => v,
                    None => Seq::empty(),
                };
                let (p2, def) = style_scan(ev, pos + 1, empty_style());
                proof {
                    lemma_style_scan(ev, pos + 1, empty_style());
                }
                styles_scan(ev, p2, defaults, if id.len() > 0 { styles.push((id, def)) } else { styles })
            } else {
                styles_scan(ev, pos + 1, defaults, styles)
            },
            _ => styles_scan(ev, pos + 1, defaults, styles),
        }
    }
}

fn parse_rpr_default(ev: &Vec<XmlEvent>, pos: usize, d: &mut Props) -> (r: usize)
    requires
        pos <= ev@.len(),
    ensures
        (r as int, final(d)@) == rpr_default_scan(events_view(ev@), pos as int, old(d)@),
        pos <= r <= ev@.len(),
{
    let ghost evs = events_view(ev@);
    let ghost goal = rpr_default_scan(evs, pos as int, d@);
    let mut i = pos;
    while i < ev.len()
        invariant
            pos <= i <= ev@.len(),
            evs == events_view(ev@),
            goal == rpr_default_scan(evs, pos as int, old(d)@),
            goal == rpr_default_scan(evs, i as int, d@),
        decreases ev.len() - i,
    {
        assert(evs[i as int] == ev@[i as int]@);
        match &ev[i] {
            XmlEvent::Start(n, _) => {
                if local_is(n.as_str(), "rPr") {
                    i = parse_props(ev, i + 1, "rPr", d);
                    continue;
                }
            },
            XmlEvent::End(n) => {
                if local_is(n.as_str(), "rPrDefault") {
                    assert(evs[i as int] == EventView::End(n@));
                    return i + 1;
                }
            },
            _ => {},
        }
        i += 1;
    }
    i
}

fn parse_style(ev: &Vec<XmlEvent>, pos: usize, def: &mut StyleDef) -> (r: usize)
    requires
        pos <= ev@.len(),
    ensures
        (r as int, final(def)@) == style_scan(events_view(ev@), pos as int, old(def)@),
        pos <= r <= ev@.len(),
{
    let ghost evs = events_view(ev@);
    let ghost goal = style_scan(evs, pos as int, def@);
    let mut i = pos;
    while i < ev.len()
        invariant
            pos <= i <= ev@.len(),
            evs == events_view(ev@),
            goal == style_scan(evs, pos as int, old(def)@),
            goal == style_scan(evs, i as int, def@),
        decreases ev.len() - i,
    {
        assert(evs[i as int] == ev@[i as int]@);
        let tag: Option<(&String, &Vec<XmlAttr>)> = match &ev[i] {
            XmlEvent::Start(n, a) => Some((n, a)),
            XmlEvent::Empty(n, a) => Some((n, a)),
            _ => None,
        };
        match tag {
            Some((n, a)) => {
                let l = local(n.as_str());
                if str_eq(l.as_str(), "name") {
                    def.name = attr(a, "val");
                } else if str_eq(l.as_str(), "basedOn") {
                    def.based_on = attr(a, "val");
                } else if str_eq(l.as_str(), "rPr") || str_eq(l.as_str(), "pPr") {
                    i = parse_props(ev, i + 1, l.as_str(), &mut def.props);
                    continue;
                }
            },
            None => {
                match &ev[i] {
                    XmlEvent::End(n) => {
                        if local_is(n.as_str(), "style") {
                            assert(evs[i as int] == EventView::End(n@));
                            return i + 1;
                        }
                    },
                    _ => {},
                }
            },
        }
        i += 1;
    }
    i
}

/// `parse_styles`: the document defaults and the style definitions.
pub fn parse_styles(xml: &str) -> (r: (Props, Vec<StyleEntry>))
    ensures
        (r.0@, styles_view(r.1@)) == styles_scan(crate::xmlev::xml_events_of(xml@), 0, empty_props(), Seq::empty()),
{
    let ev = xml_events(xml);
    let ghost evs = events_view(ev@);
    let mut defaults = Props::new();
    let mut styles: Vec<StyleEntry> = Vec::new();
    let ghost goal = styles_scan(evs, 0, empty_props(), Seq::empty());
    assert(styles_view(styles@) == Seq::<(Seq<char>, StyleView)>::empty());
    let mut i: usize = 0;
    while i < ev.len()
        invariant
            i <= ev@.len(),
            evs == events_view(ev@),
            goal == styles_scan(evs, i as int, defaults@, styles_view(styles@)),
        decreases ev.len() - i,
    {
        assert(evs[i as int] == ev@[i as int]@);
        match &ev[i] {
            XmlEvent::Start(n, a) => {
                if local_is(n.as_str(), "rPrDefault") {
                    i = parse_rpr_default(&ev, i + 1, &mut defaults);
                    continue;
                } else if local_is(n.as_str(), "style") {
                    let id = match attr(a, "styleId") {
                        Some(v) => v,
                        None => String::new(),
                    };
                    let mut def = StyleDef { name: None, based_on: None, props: Props::new() };
                    i = parse_style(&ev, i + 1, &mut def);
                    if id.as_str().unicode_len() > 0 {
                        let ghost before = styles_view(styles@);
                        let ghost entry = (id@, def@);
                        styles.push(StyleEntry { id, def });
                        assert(styles_view(styles@) == before.push(entry));
                    }
                    continue;
                }
            },
            _ => {},
        }
        i += 1;
    }
    (defaults, styles)
}

// ---------------------------------------------------------------------
// Style resolution.
// ---------------------------------------------------------------------
/// The last definition of `id`.
pub open spec fn style_lookup(styles: Seq<(Seq<char>, StyleView)>, id: Seq<char>) -> Option<StyleView>
    decreases styles.len(),
{
    if styles.len() == 0 {
        None
    } else if styles.last().0 == id {
        Some(styles.last().1)
    } else {
        style_lookup(styles.drop_last(), id)
    }
}

/// The effective properties of style `id`: the defaults, then each style of
/// its basedOn chain from the root down, followed at most 16 links deep.
pub open spec fn resolved(
    id: Seq<char>,
    styles: Seq<(Seq<char>, StyleView)>,
    defaults: PropsView,
    depth: int,
) -> PropsView
    decreases 17 - depth,
{
    if depth > 16 {
        defaults
    } else {
        match style_lookup(styles, id) {
            None => defaults,
            Some(def) => overlaid(
                match def.based_on {
                    Some(b) => resolved(b, styles, defaults, depth + 1),
                    None => defaults,
                },
                def.props,
            ),
        }
    }
}

fn find_style<'a>(styles: &'a Vec<StyleEntry>, id: &str) -> (r: Option<&'a StyleDef>)
    ensures
        match r {
            Some(d) => style_lookup(styles_view(styles@), id@) == Some(d@),
            None => style_lookup(styles_view(styles@), id@) is None,
        },
{
    let ghost all = styles_view(styles@);
    assert(all.take(all.len() as int) == all);
    let mut k = styles.len();
    while k > 0
        invariant
            k <= styles@.len(),
            all == styles_view(styles@),
            style_lookup(all, id@) == style_lookup(all.take(k as int), id@),
        decreases k,
    {
        let ghost t = all.take(k as int);
        assert(t.last() == all[k - 1]);
        assert(t.drop_last() == all.take(k - 1));
        if str_eq(styles[k - 1].id.as_str(), id) {
            return Some(&styles[k - 1].def);
        }
        k -= 1;
    }
    assert(all.take(0).len() == 0);
    None
}

/// `resolve_style`: effective properties of a paragraph style.
pub fn resolve_style(id: &str, styles: &Vec<StyleEntry>, defaults: &Props, depth: u8) -> (r: Props)
    ensures
        r@ == resolved(id@, styles_view(styles@), defaults@, depth as int),
    decreases 17 - depth,
{
    if depth > 16 {
        return defaults.duplicate();
    }
    let def = match find_style(styles, id) {
        Some(d) => d,
        None => {
            return defaults.duplicate();
        },
    };
    let mut p = match &def.based_on {
        Some(b) => resolve_style(b.as_str(), styles, defaults, depth + 1),
        None => defaults.duplicate(),
    };
    p.overlay(&def.props);
    p
}

// ---------------------------------------------------------------------
// Tables.
// ---------------------------------------------------------------------
/// Strings joined with a separator.
pub open spec fn join_with(items: Seq<Seq<char>>, sep: Seq<char>) -> Seq<char>
    decreases items.len(),
{
    if items.len() == 0 {
        Seq::empty()
    } else if items.len() == 1 {
        items[0]
    } else {
        join_with(items.drop_last(), sep) + sep + items.last()
    }
}

/// The cell texts of a table, read from `pos` (inside `<w:tbl>`, nested
/// `depth` deep) through its end tag: the position after it and the cells.
pub open spec fn table_scan(
    ev: Seq<EventView>,
    pos: int,
    cells: Seq<Seq<char>>,
    cur: Seq<char>,
    in_text: bool,
    depth: int,
) -> (int, Seq<Seq<char>>)
    decreases ev.len() - pos,
{
    if pos < 0 || pos >= ev.len() {
        (pos, cells)
    } else {
        match ev[pos] {
            EventView::Start(n, _) => {
                let l = local_name(n);
                if l == "tbl"@ {
                    table_scan(ev, pos + 1, cells, cur, in_text, depth + 1)
                } else if l == "tc"@ {
                    table_scan(ev, pos + 1, cells, Seq::empty(), in_text, depth)
                } else if l == "t"@ {
                    table_scan(ev, pos + 1, cells, cur, true, depth)
                } else {
                    table_scan(ev, pos + 1, cells, cur, in_text, depth)
                }
            },
            EventView::Text(t) => if in_text {
                table_scan(ev, pos + 1, cells, cur + t, in_text, depth)
            } else {
                table_scan(ev, pos + 1, cells, cur, in_text, depth)
            },
            EventView::End(n) => {
                let l = local_name(n);
                if l == "t"@ {
                    table_scan(ev, pos + 1, cells, cur, false, depth)
                } else if l == "tc"@ {
                    table_scan(ev, pos + 1, cells.push(cur), Seq::empty(), in_text, depth)
                } else if l == "tbl"@ {
                    if depth - 1 == 0 {
                        (pos + 1, cells)
                    } else {
                        table_scan(ev, pos + 1, cells, cur, in_text, depth - 1)
                    }
                } else {
                    table_scan(ev, pos + 1, cells, cur, in_text, depth)
                }
            },
            _ => table_scan(ev, pos + 1, cells, cur, in_text, depth),
        }
    }
}

pub proof fn lemma_table_scan(ev: Seq<EventView>, pos: int, cells: Seq<Seq<char>>, cur: Seq<char>, in_text: bool, depth: int)
    requires
        0 <= pos <= ev.len(),
    ensures
        pos <= table_scan(ev, pos, cells, cur, in_text, depth).0 <= ev.len(),
    decreases ev.len() - pos,
{
    if pos < ev.len() {
        match ev[pos] {
            EventView::Start(n, _) => {
                let l = local_name(n);
                if l == "tbl"@ {
                    lemma_table_scan(ev, pos + 1, cells, cur, in_text, depth + 1)
                } else if l == "tc"@ {
                    lemma_table_scan(ev, pos + 1, cells, Seq::empty(), in_text, depth)
                } else if l == "t"@ {
                    lemma_table_scan(ev, pos + 1, cells, cur, true, depth)
                } else {
                    lemma_table_scan(ev, pos + 1, cells, cur, in_text, depth)
                }
            },
            EventView::Text(t) => if in_text {
                lemma_table_scan(ev, pos + 1, cells, cur + t, in_text, depth)
            } else {
                lemma_table_scan(ev, pos + 1, cells, cur, in_text, depth)
            },
            EventView::End(n) => {
                let l = local_name(n);
                if l == "t"@ {
                    lemma_table_scan(ev, pos + 1, cells, cur, false, depth)
                } else if l == "tc"@ {
                    lemma_table_scan(ev, pos + 1, cells.push(cur), Seq::empty(), in_text, depth)
                } else if l == "tbl"@ {
                    if depth - 1 != 0 {
                        lemma_table_scan(ev, pos + 1, cells, cur, in_text, depth - 1)
                    }
                } else {
                    lemma_table_scan(ev, pos + 1, cells, cur, in_text, depth)
                }
            },
            _ => lemma_table_scan(ev, pos + 1, cells, cur, in_text, depth),
        }
    }
}

/// Joins strings with `sep`.
pub fn join_strings(items: &Vec<String>, sep: &str) -> (r: String)
    ensures
        r@ == join_with(items@.map_values(|s: String| s@), sep@),
{
    let ghost all = items@.map_values(|s: String| s@);
    let mut out = String::new();
    let mut i: usize = 0;
    while i < items.len()
        invariant
            i <= items@.len(),
            all == items@.map_values(|s: String| s@),
            out@ == join_with(all.take(i as int), sep@),
        decreases items.len() - i,
    {
        let ghost t = all.take(i + 1);
        assert(t.drop_last() == all.take(i as int));
        assert(t.last() == items@[i as int]@);
        if i > 0 {
            out.append(sep);
        } else {
            assert(t.len() == 1);
        }
        out.append(items[i].as_str());
        i += 1;
    }
    assert(all.take(items@.len() as int) == all);
    out
}

/// `parse_table_text`: from inside `<w:tbl>` through its end tag, all cell
/// text joined by " | ". Returns the position after the table.
pub fn parse_table_text(ev: &Vec<XmlEvent>, pos: usize) -> (r: (usize, String))
    requires
        pos <= ev@.len(),
    ensures
        pos <= r.0 <= ev@.len(),
        ({
            let (p, cells) = table_scan(events_view(ev@), pos as int, Seq::empty(), Seq::empty(), false, 1);
            r.0 == p && r.1@ == join_with(cells, " | "@)
        }),
{
    let ghost evs = events_view(ev@);
    let ghost goal = table_scan(evs, pos as int, Seq::empty(), Seq::empty(), false, 1);
    let mut cells: Vec<String> = Vec::new();
    let mut cur = String::new();
    let mut in_text = false;
    let mut depth: u128 = 1;
    let mut i = pos;
    assert(cells@.map_values(|s: String| s@) == Seq::<Seq<char>>::empty());
    while i < ev.len()
        invariant
            pos <= i <= ev@.len(),
            evs == events_view(ev@),
            depth >= 1,
            depth <= i - pos + 1,
            goal == table_scan(evs, pos as int, Seq::empty(), Seq::empty(), false, 1),
            goal == table_scan(evs, i as int, cells@.map_values(|s: String| s@), cur@, in_text, depth as int),
        decreases ev.len() - i,
    {
        assert(evs[i as int] == ev@[i as int]@);
        match &ev[i] {
            XmlEvent::Start(n, _) => {
                let l = local(n.as_str());
                if str_eq(l.as_str(), "tbl") {
                    depth += 1;
                } else if str_eq(l.as_str(), "tc") {
                    cur = String::new();
                } else if str_eq(l.as_str(), "t") {
                    in_text = true;
                }
            },
            XmlEvent::Text(t) => {
                if in_text {
                    cur.append(t.as_str());
                }
            },
            XmlEvent::End(n) => {
                let l = local(n.as_str());
                if str_eq(l.as_str(), "t") {
                    in_text = false;
                } else if str_eq(l.as_str(), "tc") {
                    let c = cur;
                    cur = String::new();
                    let ghost before = cells@.map_values(|s: String| s@);
                    let ghost cv = c@;
                    cells.push(c);
                    assert(cells@.map_values(|s: String| s@) == before.push(cv));
                } else if str_eq(l.as_str(), "tbl") {
                    depth -= 1;
                    if depth == 0 {
                        let out = join_strings(&cells, " | ");
                        return (i + 1, out);
                    }
                }
            },
            _ => {},
        }
        i += 1;
    }
    let out = join_strings(&cells, " | ");
    (i, out)
}

// ---------------------------------------------------------------------
// Heading level of a style name.
// ---------------------------------------------------------------------
/// The ASCII digits of a string, in order.
pub open spec fn digits_in(s: Seq<char>) -> Seq<char>
    decreases s.len(),
{
    if s.len() == 0 {
        Seq::empty()
    } else if crate::text::is_digit(s.last()) {
        digits_in(s.drop_last()).push(s.last())
    } else {
        digits_in(s.drop_last())
    }
}

pub open spec fn starts_with(s: Seq<char>, p: Seq<char>) -> bool {
    p.len() <= s.len() && s.subrange(0, p.len() as int) == p
}

/// A "heading…" / "标题…" style (ASCII case ignored) names the level
/// written by its digits.
pub open spec fn heading_level_of(style: Seq<char>) -> Option<i32> {
    let l = lower_seq(style);
    if starts_with(l, "heading"@) || starts_with(l, "标题"@) {
        parse_i32(digits_in(l))
    } else {
        None
    }
}

pub(crate) fn starts_with_str(v: &Vec<char>, p: &str) -> (r: bool)
    ensures
        r == starts_with(v@, p@),
{
    let pv = chars_of(p);
    if pv.len() > v.len() {
        return false;
    }
    let mut i: usize = 0;
    while i < pv.len()
        invariant
            i <= pv@.len() <= v@.len(),
            pv@ == p@,
            forall|k: int| 0 <= k < i ==> v@[k] == pv@[k],
        decreases pv.len() - i,
    {
        if v[i] != pv[i] {
            assert(v@.subrange(0, pv@.len() as int)[i as int] != pv@[i as int]);
            return false;
        }
        i += 1;
    }
    assert(v@.subrange(0, pv@.len() as int) == pv@);
    true
}

/// `heading_from_style`.
pub fn heading_from_style(s: &str) -> (r: Option<i32>)
    ensures
        r == heading_level_of(s@),
{
    let l = crate::text::to_ascii_lowercase(s);
    let lv = chars_of(l.as_str());
    let mut digits = String::new();
    let mut i: usize = 0;
    while i < lv.len()
        invariant
            i <= lv@.len(),
            digits@ == digits_in(lv@.take(i as int)),
        decreases lv.len() - i,
    {
        let ghost t = lv@.take(i + 1);
        assert(t.drop_last() == lv@.take(i as int));
        assert(t.last() == lv@[i as int]);
        if '0' <= lv[i] && lv[i] <= '9' {
            push_char(&mut digits, lv[i]);
        }
        i += 1;
    }
    assert(lv@.take(lv@.len() as int) == lv@);
    if starts_with_str(&lv, "heading") || starts_with_str(&lv, "标题") {
        parse_int32(digits.as_str())
    } else {
        None
    }
}

// ---------------------------------------------------------------------
// Paragraphs.
// ---------------------------------------------------------------------
/// One run of a source paragraph with its inline formatting.
pub struct SourceRun {
    pub text: String,
    pub bold: bool,
    pub italic: bool,
    pub vertical_align: Option<String>,
    /// Some("tab") for a `<w:tab/>` marker; None for a text run.
    pub kind: Option<String>,
}

pub struct RunView {
    pub text: Seq<char>,
    pub bold: bool,
    pub italic: bool,
    pub vertical_align: Option<Seq<char>>,
    pub kind: Option<Seq<char>>,
}

impl View for SourceRun {
    type V = RunView;

    open spec fn view(&self) -> RunView {
        RunView {
            text: self.text@,
            bold: self.bold,
            italic: self.italic,
            vertical_align: osv(self.vertical_align),
            kind: osv(self.kind),
        }
    }
}

pub open spec fn runs_view(v: Seq<SourceRun>) -> Seq<RunView> {
    v.map_values(|r: SourceRun| r@)
}

pub open spec fn empty_run() -> RunView {
    RunView { text: Seq::empty(), bold: false, italic: false, vertical_align: None, kind: None }
}

fn clone_runs(v: &Vec<SourceRun>) -> (r: Vec<SourceRun>)
    ensures
        runs_view(r@) == runs_view(v@),
{
    let mut out: Vec<SourceRun> = Vec::new();
    let mut i: usize = 0;
    while i < v.len()
        invariant
            i <= v@.len(),
            runs_view(out@) == runs_view(v@.take(i as int)),
        decreases v.len() - i,
    {
        let r = &v[i];
        let c = SourceRun {
            text: r.text.clone(),
            bold: r.bold,
            italic: r.italic,
            vertical_align: clone_os(&r.vertical_align),
            kind: clone_os(&r.kind),
        };
        let ghost before = runs_view(out@);
        out.push(c);
        assert(runs_view(out@) == before.push(v@[i as int]@));
        assert(v@.take(i + 1) == v@.take(i as int).push(v@[i as int]));
        i += 1;
    }
    assert(v@.take(v@.len() as int) == v@);
    out
}

impl SourceRun {
    pub fn new() -> (r: Self)
        ensures
            r@ == empty_run(),
    {
        SourceRun { text: String::new(), bold: false, italic: false, vertical_align: None, kind: None }
    }
}

/// A finished run is kept when it has text or any formatting or kind.
pub open spec fn run_kept(r: RunView) -> bool {
    r.text.len() > 0 || r.bold || r.italic || r.vertical_align is Some || r.kind is Some
}

/// The runs with the current run added if it is kept: a run carried over
/// past a tab only if it got text after the tab, any other run as
/// `run_kept` says.
pub open spec fn flushed_runs(runs: Seq<RunView>, cur: RunView, carried: bool) -> Seq<RunView> {
    if (if carried { cur.text.len() > 0 } else { run_kept(cur) }) {
        runs.push(cur)
    } else {
        runs
    }
}

/// The runs at a `<w:tab/>`: the current run (as `flushed_runs` keeps
/// it), then a tab marker.
pub open spec fn tab_runs(runs: Seq<RunView>, cur: RunView, carried: bool) -> Seq<RunView> {
    flushed_runs(runs, cur, carried).push(RunView { kind: Some("tab"@), ..empty_run() })
}

/// The current run after a `<w:tab/>`: its formatting carries over, its
/// text starts again.
pub open spec fn after_tab(cur: RunView) -> RunView {
    RunView { text: Seq::empty(), ..cur }
}

/// What a paragraph yields: its text, its `pStyle`, its direct properties
/// and its runs.
pub struct ParaView {
    pub text: Seq<char>,
    pub style: Option<Seq<char>>,
    pub direct: PropsView,
    pub runs: Seq<RunView>,
}

/// The state of the paragraph reader.
pub struct ParaState {
    pub para: ParaView,
    pub cur: RunView,
    pub in_r: u32,
    pub in_t: bool,
    pub first_rpr_used: bool,
    /// Whether the current run was carried over past a `<w:tab/>`.
    pub carried: bool,
}

pub open spec fn rpr_applied(st: ParaState, tmp: PropsView) -> ParaState {
    let cur = if st.in_r > 0 {
        RunView {
            bold: if tmp.bold == Some(true) { true } else { st.cur.bold },
            italic: if tmp.italic == Some(true) { true } else { st.cur.italic },
            vertical_align: if tmp.vertical_align is Some { tmp.vertical_align } else { st.cur.vertical_align },
            ..st.cur
        }
    } else {
        st.cur
    };
    if !st.first_rpr_used {
        ParaState {
            cur,
            para: ParaView { direct: overlaid(st.para.direct, tmp), ..st.para },
            first_rpr_used: true,
            ..st
        }
    } else {
        ParaState { cur, ..st }
    }
}

/// Reading a paragraph from `pos` (just inside `<w:p>`) through `</w:p>`.
pub open spec fn para_scan(ev: Seq<EventView>, pos: int, st: ParaState) -> (int, ParaView)
    decreases ev.len() - pos,
{
    if pos < 0 || pos >= ev.len() {
        (pos, st.para)
    } else {
        match ev[pos] {
            EventView::Start(n, _) => {
                let l = local_name(n);
                if l == "r"@ {
                    para_scan(ev, pos + 1, ParaState { in_r: (if st.in_r == u32::MAX { 0 } else { st.in_r + 1 }) as u32, cur: empty_run(), carried: false, ..st })
                } else if l == "rPr"@ {
                    let (p2, tmp) = props_scan(ev, pos + 1, "rPr"@, empty_props());
                    proof {
                        lemma_props_scan(ev, pos + 1, "rPr"@, empty_props());
                    }
                    para_scan(ev, p2, rpr_applied(st, tmp))
                } else if l == "t"@ {
                    para_scan(ev, pos + 1, ParaState { in_t: true, ..st })
                } else {
                    para_scan(ev, pos + 1, st)
                }
            },
            EventView::Empty(n, a) => {
                let l = local_name(n);
                if l == "pStyle"@ {
                    para_scan(ev, pos + 1, ParaState { para: ParaView { style: attr_value(a, "val"@), ..st.para }, ..st })
                } else if l == "jc"@ && attr_value(a, "val"@) is Some {
                    para_scan(ev, pos + 1, ParaState {
                        para: ParaView { direct: PropsView { jc: attr_value(a, "val"@), ..st.para.direct }, ..st.para },
                        ..st
                    })
                } else if l == "outlineLvl"@ && attr_value(a, "val"@) is Some {
                    para_scan(ev, pos + 1, ParaState {
                        para: ParaView {
                            direct: PropsView { outline: outline_value(attr_value(a, "val"@)->0), ..st.para.direct },
                            ..st.para
                        },
                        ..st
                    })
                } else if l == "tab"@ && st.in_r > 0 {
                    para_scan(ev, pos + 1, ParaState {
                        para: ParaView { runs: tab_runs(st.para.runs, st.cur, st.carried), ..st.para },
                        cur: after_tab(st.cur),
                        carried: true,
                        ..st
                    })
                } else {
                    para_scan(ev, pos + 1, st)
                }
            },
            EventView::Text(t) => if st.in_t && st.in_r > 0 {
                para_scan(ev, pos + 1, ParaState {
                    para: ParaView { text: st.para.text + t, ..st.para },
                    cur: RunView { text: st.cur.text + t, ..st.cur },
                    ..st
                })
            } else {
                para_scan(ev, pos + 1, st)
            },
            EventView::End(n) => {
                let l = local_name(n);
                if l == "t"@ {
                    para_scan(ev, pos + 1, ParaState { in_t: false, ..st })
                } else if l == "r"@ {
                    para_scan(ev, pos + 1, ParaState {
                        in_r: (if st.in_r == 0 { u32::MAX as int } else { st.in_r - 1 }) as u32,
                        para: ParaView { runs: flushed_runs(st.para.runs, st.cur, st.carried), ..st.para },
                        cur: empty_run(),
                        carried: false,
                        ..st
                    })
                } else if l == "p"@ {
                    (pos + 1, st.para)
                } else {
                    para_scan(ev, pos + 1, st)
                }
            },
            _ => para_scan(ev, pos + 1, st),
        }
    }
}

pub proof fn lemma_para_scan(ev: Seq<EventView>, pos: int, st: ParaState)
    requires
        0 <= pos <= ev.len(),
    ensures
        pos <= para_scan(ev, pos, st).0 <= ev.len(),
    decreases ev.len() - pos,
{
    if pos < ev.len() {
        match ev[pos] {
            EventView::Start(n, _) => {
                let l = local_name(n);
                if l == "r"@ {
                    lemma_para_scan(ev, pos + 1, ParaState { in_r: (if st.in_r == u32::MAX { 0 } else { st.in_r + 1 }) as u32, cur: empty_run(), carried: false, ..st })
                } else if l == "rPr"@ {
                    lemma_props_scan(ev, pos + 1, "rPr"@, empty_props());
                    let (p2, tmp) = props_scan(ev, pos + 1, "rPr"@, empty_props());
                    lemma_para_scan(ev, p2, rpr_applied(st, tmp))
                } else if l == "t"@ {
                    lemma_para_scan(ev, pos + 1, ParaState { in_t: true, ..st })
                } else {
                    lemma_para_scan(ev, pos + 1, st)
                }
            },
            EventView::Empty(n, a) => {
                let l = local_name(n);
                if l == "pStyle"@ {
                    lemma_para_scan(ev, pos + 1, ParaState { para: ParaView { style: attr_value(a, "val"@), ..st.para }, ..st })
                } else if l == "jc"@ && attr_value(a, "val"@) is Some {
                    lemma_para_scan(ev, pos + 1, ParaState {
                        para: ParaView { direct: PropsView { jc: attr_value(a, "val"@), ..st.para.direct }, ..st.para },
                        ..st
                    })
                } else if l == "outlineLvl"@ && attr_value(a, "val"@) is Some {
                    lemma_para_scan(ev, pos + 1, ParaState {
                        para: ParaView {
                            direct: PropsView { outline: outline_value(attr_value(a, "val"@)->0), ..st.para.direct },
                            ..st.para
                        },
                        ..st
                    })
                } else if l == "tab"@ && st.in_r > 0 {
                    lemma_para_scan(ev, pos + 1, ParaState {
                        para: ParaView { runs: tab_runs(st.para.runs, st.cur, st.carried), ..st.para },
                        cur: after_tab(st.cur),
                        carried: true,
                        ..st
                    })
                } else {
                    lemma_para_scan(ev, pos + 1, st)
                }
            },
            EventView::Text(t) => if st.in_t && st.in_r > 0 {
                lemma_para_scan(ev, pos + 1, ParaState {
                    para: ParaView { text: st.para.text + t, ..st.para },
                    cur: RunView { text: st.cur.text + t, ..st.cur },
                    ..st
                })
            } else {
                lemma_para_scan(ev, pos + 1, st)
            },
            EventView::End(n) => {
                let l = local_name(n);
                if l == "t"@ {
                    lemma_para_scan(ev, pos + 1, ParaState { in_t: false, ..st })
                } else if l == "r"@ {
                    lemma_para_scan(ev, pos + 1, ParaState {
                        in_r: (if st.in_r == 0 { u32::MAX as int } else { st.in_r - 1 }) as u32,
                        para: ParaView { runs: flushed_runs(st.para.runs, st.cur, st.carried), ..st.para },
                        cur: empty_run(),
                        carried: false,
                        ..st
                    })
                } else if l != "p"@ {
                    lemma_para_scan(ev, pos + 1, st)
                }
            },
            _ => lemma_para_scan(ev, pos + 1, st),
        }
    }
}

pub open spec fn para_start() -> ParaState {
    ParaState {
        para: ParaView { text: Seq::empty(), style: None, direct: empty_props(), runs: Seq::empty() },
        cur: empty_run(),
        in_r: 0,
        in_t: false,
        first_rpr_used: false,
        carried: false,
    }
}

/// A paragraph read from the events.
pub struct Paragraph {
    pub text: String,
    pub style: Option<String>,
    pub direct: Props,
    pub runs: Vec<SourceRun>,
}

impl View for Paragraph {
    type V = ParaView;

    open spec fn view(&self) -> ParaView {
        ParaView { text: self.text@, style: osv(self.style), direct: self.direct@, runs: runs_view(self.runs@) }
    }
}

fn split_at_tab(runs: &mut Vec<SourceRun>, cur: &mut SourceRun, carried: bool)
    ensures
        runs_view(final(runs)@) == tab_runs(runs_view(old(runs)@), old(cur)@, carried),
        final(cur)@ == after_tab(old(cur)@),
{
    let mut c = SourceRun::new();
    c.bold = cur.bold;
    c.italic = cur.italic;
    c.vertical_align = crate::plan::clone_opt(&cur.vertical_align);
    c.kind = crate::plan::clone_opt(&cur.kind);
    std::mem::swap(cur, &mut c);
    push_kept(runs, c, carried);
    let ghost r1 = runs_view(runs@);
    let mut tab_cur = SourceRun::new();
    tab_cur.kind = Some(String::from_str("tab"));
    let ghost tv = tab_cur@;
    runs.push(tab_cur);
    assert(runs_view(runs@) == r1.push(tv));
}

fn push_kept(runs: &mut Vec<SourceRun>, c: SourceRun, carried: bool)
    ensures
        runs_view(final(runs)@) == flushed_runs(runs_view(old(runs)@), c@, carried),
{
    let keep = if carried {
        c.text.as_str().unicode_len() > 0
    } else {
        c.text.as_str().unicode_len() > 0 || c.bold || c.italic || c.vertical_align.is_some() || c.kind.is_some()
    };
    if keep {
        let ghost before = runs_view(runs@);
        let ghost cv = c@;
        runs.push(c);
        assert(runs_view(runs@) == before.push(cv));
    }
}

fn flush_run(runs: &mut Vec<SourceRun>, cur: &mut SourceRun, carried: bool)
    ensures
        runs_view(final(runs)@) == flushed_runs(runs_view(old(runs)@), old(cur)@, carried),
        final(cur)@ == empty_run(),
{
    let mut c = SourceRun::new();
    std::mem::swap(cur, &mut c);
    push_kept(runs, c, carried);
}

/// `parse_paragraph`: from just inside `<w:p>` through `</w:p>`, the text,
/// pStyle, direct (paragraph-level and first-rPr) properties and runs.
/// Returns the position after the paragraph.
pub fn parse_paragraph(ev: &Vec<XmlEvent>, pos: usize) -> (r: (usize, Paragraph))
    requires
        pos <= ev@.len(),
    ensures
        (r.0 as int, r.1@) == para_scan(events_view(ev@), pos as int, para_start()),
        pos <= r.0 <= ev@.len(),
{
    let ghost evs = events_view(ev@);
    let ghost goal = para_scan(evs, pos as int, para_start());
    let mut text = String::new();
    let mut style: Option<String> = None;
    let mut direct = Props::new();
    let mut runs: Vec<SourceRun> = Vec::new();
    let mut cur = SourceRun::new();
    let mut in_r: u32 = 0;
    let mut in_t = false;
    let mut first_rpr_used = false;
    let mut carried = false;
    let mut i = pos;
    assert(runs_view(runs@) == Seq::<RunView>::empty());
    while i < ev.len()
        invariant
            pos <= i <= ev@.len(),
            evs == events_view(ev@),
            goal == para_scan(evs, pos as int, para_start()),
            goal == para_scan(evs, i as int, ParaState {
                para: ParaView { text: text@, style: osv(style), direct: direct@, runs: runs_view(runs@) },
                cur: cur@,
                in_r,
                in_t,
                first_rpr_used,
                carried,
            }),
        decreases ev.len() - i,
    {
        assert(evs[i as int] == ev@[i as int]@);
        match &ev[i] {
            XmlEvent::Start(n, _) => {
                let l = local(n.as_str());
                if str_eq(l.as_str(), "r") {
                    in_r = in_r.wrapping_add(1);
                    cur = SourceRun::new();
                    carried = false;
                } else if str_eq(l.as_str(), "rPr") {
                    let mut tmp = Props::new();
                    let next = parse_props(ev, i + 1, "rPr", &mut tmp);
                    if in_r > 0 {
                        if tmp.bold == Some(true) {
                            cur.bold = true;
                        }
                        if tmp.italic == Some(true) {
                            cur.italic = true;
                        }
                        if tmp.vertical_align.is_some() {
                            cur.vertical_align = clone_os(&tmp.vertical_align);
                        }
                    }
                    if !first_rpr_used {
                        direct.overlay(&tmp);
                        first_rpr_used = true;
                    }
                    i = next;
                    continue;
                } else if str_eq(l.as_str(), "t") {
                    in_t = true;
                }
            },
            XmlEvent::Empty(n, a) => {
                let l = local(n.as_str());
                if str_eq(l.as_str(), "pStyle") {
                    style = attr(a, "val");
                } else if str_eq(l.as_str(), "jc") && attr(a, "val").is_some() {
                    direct.jc = attr(a, "val");
                } else if str_eq(l.as_str(), "outlineLvl") && attr(a, "val").is_some() {
                    match attr(a, "val") {
                        Some(v) => {
                            direct.outline = outline_of(&v);
                        },
                        None => {},
                    }
                } else if str_eq(l.as_str(), "tab") && in_r > 0 {
                    split_at_tab(&mut runs, &mut cur, carried);
                    carried = true;
                }
            },
            XmlEvent::Text(t) => {
                if in_t && in_r > 0 {
                    cur.text.append(t.as_str());
                    text.append(t.as_str());
                }
            },
            XmlEvent::End(n) => {
                let l = local(n.as_str());
                if str_eq(l.as_str(), "t") {
                    in_t = false;
                } else if str_eq(l.as_str(), "r") {
                    in_r = in_r.wrapping_sub(1);
                    flush_run(&mut runs, &mut cur, carried);
                    carried = false;
                } else if str_eq(l.as_str(), "p") {
                    assert(evs[i as int] == EventView::End(n@));
                    return (i + 1, Paragraph { text, style, direct, runs });
                }
            },
            _ => {},
        }
        i += 1;
    }
    (i, Paragraph { text, style, direct, runs })
}

// ---------------------------------------------------------------------
// document.xml
// ---------------------------------------------------------------------
/// One body block of the source document.
pub struct DocBlock {
    pub path: String,
    pub text: String,
    pub style: Option<String>,
    pub heading_level: Option<i32>,
    pub eff: Props,
    pub runs: Vec<SourceRun>,
}

pub struct DocBlockView {
    pub path: Seq<char>,
    pub text: Seq<char>,
    pub style: Option<Seq<char>>,
    pub heading_level: Option<i32>,
    pub eff: PropsView,
    pub runs: Seq<RunView>,
}

impl View for DocBlock {
    type V = DocBlockView;

    open spec fn view(&self) -> DocBlockView {
        DocBlockView {
            path: self.path@,
            text: self.text@,
            style: osv(self.style),
            heading_level: self.heading_level,
            eff: self.eff@,
            runs: runs_view(self.runs@),
        }
    }
}

pub open spec fn doc_blocks_view(v: Seq<DocBlock>) -> Seq<DocBlockView> {
    v.map_values(|b: DocBlock| b@)
}

/// The state of the body reader.
pub struct DocState {
    pub para_idx: nat,
    pub table_idx: nat,
    pub in_body: bool,
    pub in_table: nat,
    pub blocks: Seq<DocBlockView>,
}

pub open spec fn doc_start() -> DocState {
    DocState { para_idx: 0, table_idx: 0, in_body: false, in_table: 0, blocks: Seq::empty() }
}

/// The table block number `idx` with the given text.
pub open spec fn table_block(idx: nat, text: Seq<char>, defaults: PropsView) -> DocBlockView {
    DocBlockView {
        path: "/body/table["@ + crate::text::decimal(idx) + "]"@,
        text,
        style: None,
        heading_level: None,
        eff: defaults,
        runs: Seq::empty(),
    }
}

/// The effective properties of a paragraph: its style resolved (or the
/// defaults), with its direct properties over them.
pub open spec fn para_eff(p: ParaView, styles: Seq<(Seq<char>, StyleView)>, defaults: PropsView) -> PropsView {
    overlaid(
        match p.style {
            Some(s) => resolved(s, styles, defaults, 0),
            None => defaults,
        },
        p.direct,
    )
}

/// The heading level from the style name, else from the outline level.
pub open spec fn para_heading(p: ParaView, eff: PropsView) -> Option<i32> {
    let by_style = match p.style {
        Some(s) => heading_level_of(s),
        None => None,
    };
    if by_style is Some {
        by_style
    } else {
        eff.outline
    }
}

pub open spec fn para_block(
    idx: nat,
    p: ParaView,
    styles: Seq<(Seq<char>, StyleView)>,
    defaults: PropsView,
) -> DocBlockView {
    let eff = para_eff(p, styles, defaults);
    DocBlockView {
        path: "/body/paragraph["@ + crate::text::decimal(idx) + "]"@,
        text: p.text,
        style: p.style,
        heading_level: para_heading(p, eff),
        eff,
        runs: p.runs,
    }
}

/// Reading the body: one block per top-level paragraph and per table.
pub open spec fn doc_scan(
    ev: Seq<EventView>,
    pos: int,
    st: DocState,
    defaults: PropsView,
    styles: Seq<(Seq<char>, StyleView)>,
) -> Seq<DocBlockView>
    decreases ev.len() - pos,
{
    if pos < 0 || pos >= ev.len() {
        st.blocks
    } else {
        match ev[pos] {
            EventView::Start(n, _) => {
                let l = local_name(n);
                if l == "body"@ {
                    doc_scan(ev, pos + 1, DocState { in_body: true, ..st }, defaults, styles)
                } else if l == "tbl"@ && st.in_body {
                    if st.in_table + 1 == 1 {
                        let (p2, cells) = table_scan(ev, pos + 1, Seq::empty(), Seq::empty(), false, 1);
                        proof {
                            lemma_table_scan(ev, pos + 1, Seq::empty(), Seq::empty(), false, 1);
                        }
                        let ti = st.table_idx + 1;
                        doc_scan(ev, p2, DocState {
                            table_idx: ti,
                            blocks: st.blocks.push(table_block(ti, join_with(cells, " | "@), defaults)),
                            ..st
                        }, defaults, styles)
                    } else {
                        doc_scan(ev, pos + 1, DocState { in_table: st.in_table + 1, ..st }, defaults, styles)
                    }
                } else if l == "p"@ && st.in_body && st.in_table == 0 {
                    let (p2, para) = para_scan(ev, pos + 1, para_start());
                    proof {
                        lemma_para_scan(ev, pos + 1, para_start());
                    }
                    let pi = st.para_idx + 1;
                    doc_scan(ev, p2, DocState {
                        para_idx: pi,
                        blocks: st.blocks.push(para_block(pi, para, styles, defaults)),
                        ..st
                    }, defaults, styles)
                } else {
                    doc_scan(ev, pos + 1, st, defaults, styles)
                }
            },
            EventView::Empty(n, _) => if local_name(n) == "p"@ && st.in_body && st.in_table == 0 {
                let pi = st.para_idx + 1;
                doc_scan(ev, pos + 1, DocState {
                    para_idx: pi,
                    blocks: st.blocks.push(para_block(pi, para_start().para, styles, defaults)),
                    ..st
                }, defaults, styles)
            } else {
                doc_scan(ev, pos + 1, st, defaults, styles)
            },
            EventView::End(n) => {
                let l = local_name(n);
                if l == "body"@ {
                    doc_scan(ev, pos + 1, DocState { in_body: false, ..st }, defaults, styles)
                } else if l == "tbl"@ && st.in_table > 0 {
                    doc_scan(ev, pos + 1, DocState { in_table: (st.in_table - 1) as nat, ..st }, defaults, styles)
                } else {
                    doc_scan(ev, pos + 1, st, defaults, styles)
                }
            },
            _ => doc_scan(ev, pos + 1, st, defaults, styles),
        }
    }
}

fn numbered_path(prefix: &str, idx: usize) -> (r: String)
    ensures
        r@ == prefix@ + crate::text::decimal(idx as nat) + "]"@,
{
    let mut s = String::from_str(prefix);
    crate::text::push_decimal(&mut s, idx as u64);
    s.append("]");
    s
}

fn paragraph_doc_block(para: Paragraph, idx: usize, styles: &Vec<StyleEntry>, defaults: &Props) -> (b: DocBlock)
    ensures
        b@ == para_block(idx as nat, para@, styles_view(styles@), defaults@),
{
    let mut eff = match &para.style {
        Some(s) => resolve_style(s.as_str(), styles, defaults, 0),
        None => defaults.duplicate(),
    };
    eff.overlay(&para.direct);
    let by_style = match &para.style {
        Some(s) => heading_from_style(s.as_str()),
        None => None,
    };
    let heading_level = if by_style.is_some() { by_style } else { eff.outline };
    DocBlock {
        path: numbered_path("/body/paragraph[", idx),
        text: para.text,
        style: para.style,
        heading_level,
        eff,
        runs: para.runs,
    }
}

/// `parse_document`: the body blocks of document.xml.
pub fn parse_document(xml: &str, defaults: &Props, styles: &Vec<StyleEntry>) -> (r: Vec<DocBlock>)
    ensures
        doc_blocks_view(r@) == doc_scan(crate::xmlev::xml_events_of(xml@), 0, doc_start(), defaults@, styles_view(styles@)),
{
    let ev = xml_events(xml);
    let ghost evs = events_view(ev@);
    let ghost sv = styles_view(styles@);
    let ghost goal = doc_scan(evs, 0, doc_start(), defaults@, sv);
    let mut blocks: Vec<DocBlock> = Vec::new();
    let mut para_idx: usize = 0;
    let mut table_idx: usize = 0;
    let mut in_body = false;
    let mut in_table: usize = 0;
    let mut i: usize = 0;
    assert(doc_blocks_view(blocks@) == Seq::<DocBlockView>::empty());
    while i < ev.len()
        invariant
            i <= ev@.len(),
            evs == events_view(ev@),
            sv == styles_view(styles@),
            para_idx <= i,
            table_idx <= i,
            in_table <= i,
            goal == doc_scan(evs, i as int, DocState {
                para_idx: para_idx as nat,
                table_idx: table_idx as nat,
                in_body,
                in_table: in_table as nat,
                blocks: doc_blocks_view(blocks@),
            }, defaults@, sv),
        decreases ev.len() - i,
    {
        assert(evs[i as int] == ev@[i as int]@);
        match &ev[i] {
            XmlEvent::Start(n, _) => {
                let l = local(n.as_str());
                if str_eq(l.as_str(), "body") {
                    in_body = true;
                } else if str_eq(l.as_str(), "tbl") && in_body {
                    in_table += 1;
                    if in_table == 1 {
                        table_idx += 1;
                        let (next, text) = parse_table_text(&ev, i + 1);
                        in_table -= 1;
                        let ghost before = doc_blocks_view(blocks@);
                        let b = DocBlock {
                            path: numbered_path("/body/table[", table_idx),
                            text,
                            style: None,
                            heading_level: None,
                            eff: defaults.duplicate(),
                            runs: Vec::new(),
                        };
                        let ghost bv = b@;
                        blocks.push(b);
                        assert(doc_blocks_view(blocks@) == before.push(bv));
                        assert(bv.runs == Seq::<RunView>::empty());
                        i = next;
                        continue;
                    }
                } else if str_eq(l.as_str(), "p") && in_body && in_table == 0 {
                    para_idx += 1;
                    let (next, para) = parse_paragraph(&ev, i + 1);
                    let ghost before = doc_blocks_view(blocks@);
                    let b = paragraph_doc_block(para, para_idx, styles, defaults);
                    let ghost bv = b@;
                    blocks.push(b);
                    assert(doc_blocks_view(blocks@) == before.push(bv));
                    i = next;
                    continue;
                }
            },
            XmlEvent::Empty(n, _) => {
                let l = local(n.as_str());
                if str_eq(l.as_str(), "p") && in_body && in_table == 0 {
                    para_idx += 1;
                    let para = Paragraph { text: String::new(), style: None, direct: Props::new(), runs: Vec::new() };
                    assert(runs_view(para.runs@) =~= Seq::<RunView>::empty());
                    assert(para@ == para_start().para);
                    let ghost before = doc_blocks_view(blocks@);
                    let b = paragraph_doc_block(para, para_idx, styles, defaults);
                    let ghost bv = b@;
                    blocks.push(b);
                    assert(doc_blocks_view(blocks@) == before.push(bv));
                }
            },
            XmlEvent::End(n) => {
                let l = local(n.as_str());
                if str_eq(l.as_str(), "body") {
                    in_body = false;
                } else if str_eq(l.as_str(), "tbl") && in_table > 0 {
                    in_table -= 1;
                }
            },
            _ => {},
        }
        i += 1;
    }
    blocks
}

// ---------------------------------------------------------------------
// Source blocks for overlay.
// ---------------------------------------------------------------------
/// A source-document block as the writer reuses it.
pub struct SourceBlock {
    pub path: String,
    pub text: String,
    pub heading_level: Option<i32>,
    pub runs: Vec<SourceRun>,
}

pub struct SourceBlockView {
    pub path: Seq<char>,
    pub text: Seq<char>,
    pub heading_level: Option<i32>,
    pub runs: Seq<RunView>,
}

impl View for SourceBlock {
    type V = SourceBlockView;

    open spec fn view(&self) -> SourceBlockView {
        SourceBlockView { path: self.path@, text: self.text@, heading_level: self.heading_level, runs: runs_view(self.runs@) }
    }
}

pub open spec fn source_view(v: Seq<SourceBlock>) -> Seq<SourceBlockView> {
    v.map_values(|b: SourceBlock| b@)
}

pub open spec fn source_of(b: DocBlockView) -> SourceBlockView {
    SourceBlockView { path: b.path, text: b.text, heading_level: b.heading_level, runs: b.runs }
}

/// Why a document could not be analysed.
pub enum AnalyzeError {
    /// The archive has no readable `word/document.xml` (or could not be read).
    DocumentMissing,
}

impl AnalyzeError {
    pub fn message(&self) -> (r: String)
        ensures
            r@ == "word/document.xml missing"@,
    {
        String::from_str("word/document.xml missing")
    }
}

/// The blocks of a .docx given as the bytes of its archive (`None` when the
/// file could not be read): document.xml read against styles.xml (an
/// archive without styles.xml has no styles).
pub open spec fn analysis(archive: Option<Seq<u8>>) -> Option<Seq<DocBlockView>> {
    match archive {
        None => None,
        Some(a) => match crate::archive::zip_entry_text(a, "word/document.xml"@) {
            None => None,
            Some(doc) => {
                let styles_xml = match crate::archive::zip_entry_text(a, "word/styles.xml"@) {
                    Some(x) => x,
                    None => Seq::empty(),
                };
                let (defaults, styles) = styles_scan(crate::xmlev::xml_events_of(styles_xml), 0, empty_props(), Seq::empty());
                Some(doc_scan(crate::xmlev::xml_events_of(doc), 0, doc_start(), defaults, styles))
            },
        },
    }
}

fn read_blocks(archive: Option<&[u8]>) -> (r: Option<Vec<DocBlock>>)
    ensures
        match r {
            Some(b) => analysis(match archive { Some(a) => Some(a@), None => None }) == Some(doc_blocks_view(b@)),
            None => analysis(match archive { Some(a) => Some(a@), None => None }) is None,
        },
{
    let a = match archive {
        Some(a) => a,
        None => {
            return None;
        },
    };
    let doc = match crate::archive::read_zip_entry(a, "word/document.xml") {
        Some(d) => d,
        None => {
            return None;
        },
    };
    let styles_xml = match crate::archive::read_zip_entry(a, "word/styles.xml") {
        Some(x) => x,
        None => String::new(),
    };
    let (defaults, styles) = parse_styles(styles_xml.as_str());
    Some(parse_document(doc.as_str(), &defaults, &styles))
}

/// `source_blocks`: the blocks of a .docx with their text, heading level and
/// runs, for rebuilding it.
pub fn source_blocks(archive: Option<&[u8]>) -> (r: Result<Vec<SourceBlock>, AnalyzeError>)
    ensures
        match r {
            Ok(v) => match analysis(match archive { Some(a) => Some(a@), None => None }) {
                Some(b) => source_view(v@) == b.map_values(|x: DocBlockView| source_of(x)),
                None => false,
            },
            Err(_) => analysis(match archive { Some(a) => Some(a@), None => None }) is None,
        },
{
    let blocks = match read_blocks(archive) {
        Some(b) => b,
        None => {
            return Err(AnalyzeError::DocumentMissing);
        },
    };
    let ghost bv = doc_blocks_view(blocks@);
    let mut out: Vec<SourceBlock> = Vec::new();
    let mut k: usize = 0;
    while k < blocks.len()
        invariant
            k <= blocks@.len(),
            bv == doc_blocks_view(blocks@),
            source_view(out@) == bv.take(k as int).map_values(|x: DocBlockView| source_of(x)),
        decreases blocks.len() - k,
    {
        let b = &blocks[k];
        let ghost ov = source_view(out@);
        let sb = SourceBlock {
            path: b.path.clone(),
            text: b.text.clone(),
            heading_level: b.heading_level,
            runs: clone_runs(&b.runs),
        };
        out.push(sb);
        assert(source_view(out@) == ov.push(source_of(bv[k as int])));
        assert(bv.take(k + 1) == bv.take(k as int).push(bv[k as int]));
        k += 1;
    }
    assert(bv.take(blocks@.len() as int) == bv);
    Ok(out)
}

// ---------------------------------------------------------------------
// The analysis JSON.
// ---------------------------------------------------------------------
pub open spec fn hex_digit(d: nat) -> char {
    if d < 10 {
        (('0' as nat) + d) as char
    } else {
        (('a' as nat) + d - 10) as char
    }
}

/// One character inside a JSON string literal.
pub open spec fn json_char(c: char) -> Seq<char> {
    if c == '"' {
        seq!['\\', '"']
    } else if c == '\\' {
        seq!['\\', '\\']
    } else if c == '\n' {
        seq!['\\', 'n']
    } else if c == '\r' {
        seq!['\\', 'r']
    } else if c == '\t' {
        seq!['\\', 't']
    } else if (c as u32) < 0x20 {
        seq!['\\', 'u', '0', '0', hex_digit(((c as u32) / 16) as nat), hex_digit(((c as u32) % 16) as nat)]
    } else {
        seq![c]
    }
}

pub open spec fn json_body(s: Seq<char>) -> Seq<char>
    decreases s.len(),
{
    if s.len() == 0 {
        Seq::empty()
    } else {
        json_body(s.drop_last()) + json_char(s.last())
    }
}

/// A JSON string literal holding `s`.
pub open spec fn json_string(s: Seq<char>) -> Seq<char> {
    seq!['"'] + json_body(s) + seq!['"']
}

fn hex_of(d: u32) -> (c: char)
    requires
        d < 16,
    ensures
        c == hex_digit(d as nat),
{
    if d < 10 {
        let x: u8 = 48u8 + (d as u8);
        x as char
    } else {
        let x: u8 = 87u8 + (d as u8);
        x as char
    }
}

/// `json_str`: `s` as a JSON string literal.
pub fn json_str(s: &str) -> (r: String)
    ensures
        r@ == json_string(s@),
{
    let v = chars_of(s);
    let mut o = String::new();
    push_char(&mut o, '"');
    let mut i: usize = 0;
    while i < v.len()
        invariant
            i <= v@.len(),
            o@ == seq!['"'] + json_body(v@.take(i as int)),
        decreases v.len() - i,
    {
        let c = v[i];
        let ghost before = o@;
        if c == '"' {
            push_char(&mut o, '\\');
            push_char(&mut o, '"');
        } else if c == '\\' {
            push_char(&mut o, '\\');
            push_char(&mut o, '\\');
        } else if c == '\n' {
            push_char(&mut o, '\\');
            push_char(&mut o, 'n');
        } else if c == '\r' {
            push_char(&mut o, '\\');
            push_char(&mut o, 'r');
        } else if c == '\t' {
            push_char(&mut o, '\\');
            push_char(&mut o, 't');
        } else if (c as u32) < 0x20 {
            let x = c as u32;
            push_char(&mut o, '\\');
            push_char(&mut o, 'u');
            push_char(&mut o, '0');
            push_char(&mut o, '0');
            push_char(&mut o, hex_of(x / 16));
            push_char(&mut o, hex_of(x % 16));
        } else {
            push_char(&mut o, c);
        }
        assert(o@ =~= before + json_char(c));
        let ghost t = v@.take(i + 1);
        assert(t.drop_last() == v@.take(i as int));
        assert(t.last() == c);
        i += 1;
    }
    assert(v@.take(v@.len() as int) == v@);
    push_char(&mut o, '"');
    o
}

pub open spec fn json_opt(v: Option<Seq<char>>) -> Seq<char> {
    match v {
        Some(s) => json_string(s),
        None => "null"@,
    }
}

/// `opt`: a JSON string, or `null`.
pub fn opt(v: &Option<String>) -> (r: String)
    ensures
        r@ == json_opt(osv(*v)),
{
    match v {
        Some(s) => json_str(s.as_str()),
        None => String::from_str("null"),
    }
}

pub open spec fn json_block_head(b: DocBlockView) -> Seq<char> {
    "    {\"path\": "@ + json_string(b.path) + ", \"text\": "@ + json_string(b.text) + ", \"style\": "@
        + json_opt(b.style)
}

pub open spec fn json_heading(h: Option<i32>) -> Seq<char> {
    ", \"headingLevel\": "@ + match h {
        Some(h) => crate::text::int_decimal(h as int),
        None => "null"@,
    }
}

pub open spec fn json_eff(e: PropsView) -> Seq<char> {
    ", \"eff\": {\"asciiFont\": "@ + json_opt(e.ascii) + ", \"eastAsiaFont\": "@ + json_opt(e.east)
        + ", \"sz\": "@ + json_opt(e.sz) + ", \"bold\": "@ + (if e.bold == Some(true) { "true"@ } else { "false"@ })
        + ", \"align\": "@ + json_opt(e.jc) + "}"@
}

pub open spec fn json_bool(b: bool) -> Seq<char> {
    if b {
        "true"@
    } else {
        "false"@
    }
}

/// One run of the analysis JSON: its text, bold, italic, vertical
/// alignment and kind (`"tab"` for a tab marker).
pub open spec fn json_run(r: RunView) -> Seq<char> {
    "{\"text\": "@ + json_string(r.text) + ", \"bold\": "@ + json_bool(r.bold) + ", \"italic\": "@ + json_bool(
        r.italic,
    ) + ", \"verticalAlign\": "@ + json_opt(r.vertical_align) + ", \"kind\": "@ + json_opt(r.kind) + "}"@
}

/// The first `n` runs, separated by `, `.
pub open spec fn json_run_list(runs: Seq<RunView>, n: int) -> Seq<char>
    decreases n,
{
    if n <= 0 || n > runs.len() {
        Seq::empty()
    } else {
        json_run_list(runs, n - 1) + (if n > 1 { ", "@ } else { ""@ }) + json_run(runs[n - 1])
    }
}

/// The per-run array of a block.
pub open spec fn json_runs(runs: Seq<RunView>) -> Seq<char> {
    ", \"runs\": ["@ + json_run_list(runs, runs.len() as int) + "]"@
}

/// One block of the analysis JSON (without the separator and newline).
#[verifier::opaque]
pub open spec fn json_block(b: DocBlockView) -> Seq<char> {
    json_block_head(b) + json_heading(b.heading_level) + json_eff(b.eff) + json_runs(b.runs) + "}"@
}

/// The body entries, each followed by a comma (all but the last) and a newline.
pub open spec fn json_blocks(blocks: Seq<DocBlockView>, n: int) -> Seq<char>
    decreases n,
{
    if n <= 0 || n > blocks.len() {
        Seq::empty()
    } else {
        json_blocks(blocks, n - 1) + json_block(blocks[n - 1]) + (if n < blocks.len() { ","@ } else { ""@ }) + "\n"@
    }
}

/// The analysis JSON of a list of blocks.
pub open spec fn analysis_json(blocks: Seq<DocBlockView>) -> Seq<char> {
    "{\n  \"body\": [\n"@ + json_blocks(blocks, blocks.len() as int) + "  ]\n}\n"@
}

fn push_block_head(json: &mut String, b: &DocBlock)
    ensures
        final(json)@ == old(json)@ + json_block_head(b@),
{
    let ghost j0 = json@;
    json.append("    {\"path\": ");
    let p = json_str(b.path.as_str());
    json.append(p.as_str());
    json.append(", \"text\": ");
    let t = json_str(b.text.as_str());
    json.append(t.as_str());
    json.append(", \"style\": ");
    let st = opt(&b.style);
    json.append(st.as_str());
    assert(json@ =~= j0 + json_block_head(b@));
}

fn push_heading(json: &mut String, h: Option<i32>)
    ensures
        final(json)@ == old(json)@ + json_heading(h),
{
    let ghost j0 = json@;
    json.append(", \"headingLevel\": ");
    match h {
        Some(h) => crate::text::push_int(json, h as i64),
        None => json.append("null"),
    }
    assert(json@ =~= j0 + json_heading(h));
}

fn push_eff(json: &mut String, e: &Props)
    ensures
        final(json)@ == old(json)@ + json_eff(e@),
{
    let ghost j0 = json@;
    json.append(", \"eff\": {\"asciiFont\": ");
    let a = opt(&e.ascii);
    json.append(a.as_str());
    json.append(", \"eastAsiaFont\": ");
    let ea = opt(&e.east);
    json.append(ea.as_str());
    json.append(", \"sz\": ");
    let sz = opt(&e.sz);
    json.append(sz.as_str());
    json.append(", \"bold\": ");
    if e.bold == Some(true) {
        json.append("true");
    } else {
        json.append("false");
    }
    json.append(", \"align\": ");
    let jc = opt(&e.jc);
    json.append(jc.as_str());
    json.append("}");
    assert(json@ =~= j0 + json_eff(e@));
}

fn push_bool(json: &mut String, b: bool)
    ensures
        final(json)@ == old(json)@ + json_bool(b),
{
    if b {
        json.append("true");
    } else {
        json.append("false");
    }
}

fn push_run_json(json: &mut String, r: &SourceRun)
    ensures
        final(json)@ == old(json)@ + json_run(r@),
{
    let ghost j0 = json@;
    json.append("{\"text\": ");
    let t = json_str(r.text.as_str());
    json.append(t.as_str());
    json.append(", \"bold\": ");
    push_bool(json, r.bold);
    json.append(", \"italic\": ");
    push_bool(json, r.italic);
    json.append(", \"verticalAlign\": ");
    let va = opt(&r.vertical_align);
    json.append(va.as_str());
    json.append(", \"kind\": ");
    let k = opt(&r.kind);
    json.append(k.as_str());
    json.append("}");
    assert(json@ =~= j0 + json_run(r@));
}

fn push_runs_json(json: &mut String, runs: &Vec<SourceRun>)
    ensures
        final(json)@ == old(json)@ + json_runs(runs_view(runs@)),
{
    let ghost j0 = json@;
    let ghost rv = runs_view(runs@);
    json.append(", \"runs\": [");
    let mut i: usize = 0;
    while i < runs.len()
        invariant
            i <= runs@.len(),
            rv == runs_view(runs@),
            json@ == j0 + ", \"runs\": ["@ + json_run_list(rv, i as int),
        decreases runs.len() - i,
    {
        let ghost before = json@;
        if i > 0 {
            json.append(", ");
        } else {
            json.append("");
        }
        push_run_json(json, &runs[i]);
        assert(rv[i as int] == runs@[i as int]@);
        assert(json@ =~= j0 + ", \"runs\": ["@ + json_run_list(rv, i + 1));
        i += 1;
    }
    json.append("]");
    assert(json@ =~= j0 + json_runs(rv));
}

fn push_block_json(json: &mut String, b: &DocBlock)
    ensures
        final(json)@ == old(json)@ + json_block(b@),
{
    let ghost j0 = json@;
    reveal(json_block);
    push_block_head(json, b);
    push_heading(json, b.heading_level);
    push_eff(json, &b.eff);
    push_runs_json(json, &b.runs);
    json.append("}");
    assert(json@ =~= j0 + json_block(b@));
}

/// `analyze`: the analysis of a .docx (its archive bytes, `None` when the
/// file could not be read) as JSON: per block its path, text, style, heading
/// level, effective ASCII/East-Asian font, size, bold and alignment, and
/// its runs (text, bold, italic, vertical alignment, kind).
pub fn analyze(archive: Option<&[u8]>) -> (r: Result<String, AnalyzeError>)
    ensures
        match r {
            Ok(j) => match analysis(match archive { Some(a) => Some(a@), None => None }) {
                Some(b) => j@ == analysis_json(b),
                None => false,
            },
            Err(_) => analysis(match archive { Some(a) => Some(a@), None => None }) is None,
        },
{
    let blocks = match read_blocks(archive) {
        Some(b) => b,
        None => {
            return Err(AnalyzeError::DocumentMissing);
        },
    };
    let ghost bv = doc_blocks_view(blocks@);
    let mut json = String::from_str("{\n  \"body\": [\n");
    let mut i: usize = 0;
    while i < blocks.len()
        invariant
            i <= blocks@.len(),
            bv == doc_blocks_view(blocks@),
            json@ == "{\n  \"body\": [\n"@ + json_blocks(bv, i as int),
        decreases blocks.len() - i,
    {
        let ghost before = json@;
        push_block_json(&mut json, &blocks[i]);
        let ghost jb = json_block(bv[i as int]);
        assert(bv[i as int] == blocks@[i as int]@);
        if i + 1 < blocks.len() {
            json.append(",");
        } else {
            json.append("");
        }
        json.append("\n");
        proof {
            assert(json_blocks(bv, i + 1) == json_blocks(bv, i as int) + jb + (if i + 1 < bv.len() { ","@ } else { ""@ }) + "\n"@);
            assert(json@ =~= "{\n  \"body\": [\n"@ + json_blocks(bv, i + 1));
        }
        i += 1;
    }
    json.append("  ]\n}\n");
    Ok(json)
}

/// The heading a paragraph's `outlineLvl` names is one more than its
/// value: reading back the outline level written for heading `n` (its
/// 0-based index) gives `n` again.
pub proof fn outline_level_reads_back(n: u8)
    requires
        n >= 1,
    ensures
        outline_value(crate::text::decimal(crate::props::level_index(n))) == Some(n as i32),
{
    let m = crate::props::level_index(n);
    crate::text::decimal_reads_back(m);
    let d = crate::text::decimal(m);
    assert(crate::text::is_digit(d[0]));
}

/// A paragraph without a style takes its heading level from its own
/// `outlineLvl`: value `k` makes it heading `k + 1` (see `outline_value`),
/// whatever the document defaults say.
pub proof fn unstyled_outline_gives_heading(
    idx: nat,
    p: ParaView,
    styles: Seq<(Seq<char>, StyleView)>,
    defaults: PropsView,
    n: u8,
)
    requires
        p.style is None,
        n >= 1,
        p.direct.outline == outline_value(crate::text::decimal(crate::props::level_index(n))),
    ensures
        para_block(idx, p, styles, defaults).heading_level == Some(n as i32),
{
    outline_level_reads_back(n);
}

} // verus!
