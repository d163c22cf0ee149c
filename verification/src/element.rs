//! A UI element tree for the host to render, and the builder steps that make
//! one. Each step has a spec twin on `Ev`, the tree's view, so a tree's
//! contract reads as the steps that build it.
use vstd::prelude::*;

verus! {

/// The kinds of element the host renders.
#[derive(Clone, Copy, Debug)]
pub enum ElementKind {
    Div,
    P,
    Span,
    Badge,
    Separator,
    Input,
    Textarea,
    Button,
    Select,
    SelectOption,
    TabsRoot,
    TabsList,
    TabsTrigger,
    TabsContent,
    ScrollArea,
    Image,
    Switch,
    Progress,
}

/// The events an element reports.
#[derive(Clone, Copy, Debug)]
pub enum UiEventKind {
    Click,
    Change,
    Input,
}

/// A layout or text style. Sizes are in pixels; an opacity is in hundredths.
#[derive(Clone, Debug)]
pub enum Style {
    Flex,
    Column,
    WidthFull,
    MaxWidth(u32),
    Padding(u32),
    PaddingTop(u32),
    PaddingRight(u32),
    Gap(u32),
    AlignStart,
    AlignCenter,
    Size(u32),
    TextColor(String),
    Opacity(u32),
    MinHeight(u32),
    MaxHeight(u32),
    Width(u32),
    Height(u32),
    Radius(u32),
}

/// A style as the contracts see it.
pub enum Sv {
    Flex,
    Column,
    WidthFull,
    MaxWidth(u32),
    Padding(u32),
    PaddingTop(u32),
    PaddingRight(u32),
    Gap(u32),
    AlignStart,
    AlignCenter,
    Size(u32),
    TextColor(Seq<char>),
    Opacity(u32),
    MinHeight(u32),
    MaxHeight(u32),
    Width(u32),
    Height(u32),
    Radius(u32),
}

pub open spec fn sv(s: Style) -> Sv {
    match s {
        Style::Flex => Sv::Flex,
        Style::Column => Sv::Column,
        Style::WidthFull => Sv::WidthFull,
        Style::MaxWidth(v) => Sv::MaxWidth(v),
        Style::Padding(v) => Sv::Padding(v),
        Style::PaddingTop(v) => Sv::PaddingTop(v),
        Style::PaddingRight(v) => Sv::PaddingRight(v),
        Style::Gap(v) => Sv::Gap(v),
        Style::AlignStart => Sv::AlignStart,
        Style::AlignCenter => Sv::AlignCenter,
        Style::Size(v) => Sv::Size(v),
        Style::TextColor(c) => Sv::TextColor(c@),
        Style::Opacity(v) => Sv::Opacity(v),
        Style::MinHeight(v) => Sv::MinHeight(v),
        Style::MaxHeight(v) => Sv::MaxHeight(v),
        Style::Width(v) => Sv::Width(v),
        Style::Height(v) => Sv::Height(v),
        Style::Radius(v) => Sv::Radius(v),
    }
}

/// An element: its kind, text, properties, styles, events, whether it is
/// disabled, and its children.
#[derive(Debug)]
pub struct UiElement {
    pub kind: ElementKind,
    pub content: Option<String>,
    pub props: Vec<(String, String)>,
    pub styles: Vec<Style>,
    pub events: Vec<(UiEventKind, String)>,
    pub disabled: bool,
    pub children: Vec<UiElement>,
}

/// An element as the contracts see it.
pub struct Ev {
    pub kind: ElementKind,
    pub content: Option<Seq<char>>,
    pub props: Seq<(Seq<char>, Seq<char>)>,
    pub styles: Seq<Sv>,
    pub events: Seq<(UiEventKind, Seq<char>)>,
    pub disabled: bool,
    pub children: Seq<Ev>,
}

pub open spec fn ev(e: UiElement) -> Ev
    decreases e,
{
    Ev {
        kind: e.kind,
        content: match e.content {
            Some(c) => Some(c@),
            None => None,
        },
        props: e.props@.map_values(|p: (String, String)| (p.0@, p.1@)),
        styles: e.styles@.map_values(|s: Style| sv(s)),
        events: e.events@.map_values(|p: (UiEventKind, String)| (p.0, p.1@)),
        disabled: e.disabled,
        children: evs(e.children@),
    }
}

pub open spec fn evs(s: Seq<UiElement>) -> Seq<Ev>
    decreases s,
{
    if s.len() == 0 {
        seq![]
    } else {
        evs(s.drop_last()).push(ev(s.last()))
    }
}

/// A bare element.
pub open spec fn node(kind: ElementKind, content: Option<Seq<char>>) -> Ev {
    Ev {
        kind,
        content,
        props: seq![],
        styles: seq![],
        events: seq![],
        disabled: false,
        children: seq![],
    }
}

impl Ev {
    pub open spec fn child(self, c: Ev) -> Ev {
        Ev { children: self.children.push(c), ..self }
    }

    pub open spec fn prop(self, k: Seq<char>, v: Seq<char>) -> Ev {
        Ev { props: self.props.push((k, v)), ..self }
    }

    pub open spec fn with(self, s: Sv) -> Ev {
        Ev { styles: self.styles.push(s), ..self }
    }

    pub open spec fn on(self, k: UiEventKind, id: Seq<char>) -> Ev {
        Ev { events: self.events.push((k, id)), ..self }
    }

    pub open spec fn disable(self) -> Ev {
        Ev { disabled: true, ..self }
    }
}

impl UiElement {
    pub fn new(kind: ElementKind, content: Option<&str>) -> (r: UiElement)
        ensures
            ev(r) == node(kind, match content { Some(c) => Some(c@), None => None }),
    {
        let r = UiElement {
            kind,
            content: match content {
                Some(c) => Some(String::from_str(c)),
                None => None,
            },
            props: Vec::new(),
            styles: Vec::new(),
            events: Vec::new(),
            disabled: false,
            children: Vec::new(),
        };
        proof {
            assert(ev(r).props =~= seq![]);
            assert(ev(r).styles =~= seq![]);
            assert(ev(r).events =~= seq![]);
        }
        r
    }

    pub fn child(self, c: UiElement) -> (r: UiElement)
        ensures
            ev(r) == ev(self).child(ev(c)),
    {
        let ghost before = ev(self);
        let ghost cv = ev(c);
        let mut s = self;
        let ghost old_children = s.children@;
        s.children.push(c);
        proof {
            assert(s.children@.drop_last() =~= old_children);
            assert(ev(s) == before.child(cv));
        }
        s
    }

    pub fn prop(self, k: &str, v: &str) -> (r: UiElement)
        ensures
            ev(r) == ev(self).prop(k@, v@),
    {
        let ghost before = ev(self);
        let mut s = self;
        let ghost old_props = s.props@;
        s.props.push((String::from_str(k), String::from_str(v)));
        proof {
            assert(ev(s).props =~= before.props.push((k@, v@)));
            assert(ev(s).children == before.children);
        }
        s
    }

    pub fn style(self, st: Style) -> (r: UiElement)
        ensures
            ev(r) == ev(self).with(sv(st)),
    {
        let ghost before = ev(self);
        let ghost stv = sv(st);
        let mut s = self;
        s.styles.push(st);
        proof {
            assert(ev(s).styles =~= before.styles.push(stv));
            assert(ev(s).children == before.children);
        }
        s
    }

    pub fn on(self, k: UiEventKind, id: &str) -> (r: UiElement)
        ensures
            ev(r) == ev(self).on(k, id@),
    {
        let ghost before = ev(self);
        let mut s = self;
        s.events.push((k, String::from_str(id)));
        proof {
            assert(ev(s).events =~= before.events.push((k, id@)));
            assert(ev(s).children == before.children);
        }
        s
    }

    pub fn disabled(self) -> (r: UiElement)
        ensures
            ev(r) == ev(self).disable(),
    {
        let ghost before = ev(self);
        let mut s = self;
        s.disabled = true;
        proof {
            assert(ev(s).children == before.children);
        }
        s
    }
}

} // verus!
