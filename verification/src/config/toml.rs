//! Manifests as the list of their sections, each with its key/value
//! entries, as `toml_edit` reads them.
use vstd::prelude::*;

use crate::package::opt_view;
use crate::text::{chars_of, owned, views};

verus! {

/// One value of a section: the dotted key leading to it and the value when
/// it is a string.
#[derive(Clone, Debug)]
pub struct TomlEntry {
    pub keys: Vec<String>,
    pub value: Option<String>,
}

/// A top-level section: its name and, when it is a table, its entries.
#[derive(Clone, Debug)]
pub struct TomlSection {
    pub name: String,
    pub entries: Option<Vec<TomlEntry>>,
}

/// The mathematical value of an entry.
pub struct TomlEntryView {
    pub keys: Seq<Seq<char>>,
    pub value: Option<Seq<char>>,
}

/// The mathematical value of a section.
pub struct TomlSectionView {
    pub name: Seq<char>,
    pub entries: Option<Seq<TomlEntryView>>,
}

impl View for TomlEntry {
    type V = TomlEntryView;

    open spec fn view(&self) -> TomlEntryView {
        TomlEntryView { keys: views(self.keys@), value: opt_view(self.value) }
    }
}

/// The views of a list of entries.
pub open spec fn entry_views(v: Seq<TomlEntry>) -> Seq<TomlEntryView> {
    v.map_values(|e: TomlEntry| e@)
}

impl View for TomlSection {
    type V = TomlSectionView;

    open spec fn view(&self) -> TomlSectionView {
        TomlSectionView {
            name: self.name@,
            entries: match self.entries {
                Some(es) => Some(entry_views(es@)),
                None => None,
            },
        }
    }
}

/// The views of a list of sections.
pub open spec fn section_views(v: Seq<TomlSection>) -> Seq<TomlSectionView> {
    v.map_values(|s: TomlSection| s@)
}

/// What a TOML document holds at a path of keys.
#[derive(Debug)]
pub enum TomlNode {
    /// The text is not TOML, or nothing is at the path.
    Missing,
    /// A string value.
    Str(String),
    /// A value that is not a string (a number, a boolean, an array, an
    /// inline table, ...).
    Value,
    /// A table, with the keys of its entries in order.
    Table(Vec<String>),
    /// An array of tables.
    Other,
}

/// The mathematical value of a node.
pub enum TomlNodeView {
    Missing,
    Str(Seq<char>),
    Value,
    Table(Seq<Seq<char>>),
    Other,
}

impl View for TomlNode {
    type V = TomlNodeView;

    open spec fn view(&self) -> TomlNodeView {
        match self {
            TomlNode::Missing => TomlNodeView::Missing,
            TomlNode::Str(s) => TomlNodeView::Str(s@),
            TomlNode::Value => TomlNodeView::Value,
            TomlNode::Table(ks) => TomlNodeView::Table(views(ks@)),
            TomlNode::Other => TomlNodeView::Other,
        }
    }
}

/// What the TOML document `text` holds at `path`, as `toml_edit` parses it
/// and looks the keys up one after the other from the document's root.
pub uninterp spec fn toml_node_at(text: Seq<char>, path: Seq<Seq<char>>) -> TomlNodeView;

/// Parses TOML text with `toml_edit::Document`, looks up the keys of `path`
/// one after the other from the document's root with `Item::get`, and tells
/// what is there: a string, another value, a table with the keys of its
/// entries in the order `Table::iter` lists them, or an array of tables;
/// `Missing` when the text is not TOML or a key is not there. The contract
/// claims that the result is `toml_node_at` of the text and the path; what
/// it holds is not stated beyond that.
#[verifier::external_body]
fn toml_node(text: &str, path: &Vec<String>) -> (res: TomlNode)
    ensures
        res@ == toml_node_at(text@, views(path@)),
{
    let doc = match text.parse::<toml_edit::Document>() { Ok(doc) => doc, Err(_) => return TomlNode::Missing };
    let mut item = doc.as_item();
    for key in path.iter() {
        item = match item.get(key.as_str()) { Some(next) => next, None => return TomlNode::Missing };
    }
    match item {
        toml_edit::Item::Value(v) => v.as_str().map_or(TomlNode::Value, |s| TomlNode::Str(s.to_string())),
        toml_edit::Item::Table(t) => TomlNode::Table(t.iter().map(|(k, _)| k.to_string()).collect()),
        _ => TomlNode::Other,
    }
}

/// The entries under `path`, each with its keys after the section's name:
/// a string gives one entry with its value, any other value, an array of
/// tables or an empty table one entry without a value, and a table the
/// entries under each of its keys in order. Each level of nesting spends
/// one unit of `fuel`.
pub open spec fn entries_below(text: Seq<char>, path: Seq<Seq<char>>, fuel: nat) -> Seq<TomlEntryView>
    decreases fuel, 0nat,
{
    if fuel == 0 {
        Seq::empty()
    } else {
        match toml_node_at(text, path) {
            TomlNodeView::Missing => Seq::empty(),
            TomlNodeView::Str(s) => seq![TomlEntryView { keys: path.skip(1), value: Some(s) }],
            TomlNodeView::Table(ks) => if ks.len() == 0 {
                seq![TomlEntryView { keys: path.skip(1), value: None }]
            } else {
                entries_of_keys(text, path, ks, (fuel - 1) as nat)
            },
            _ => seq![TomlEntryView { keys: path.skip(1), value: None }],
        }
    }
}

/// The entries under each of the keys `ks` of the table at `path`, in order.
pub open spec fn entries_of_keys(text: Seq<char>, path: Seq<Seq<char>>, ks: Seq<Seq<char>>, fuel: nat) -> Seq<
    TomlEntryView,
>
    decreases fuel, ks.len(),
{
    if ks.len() == 0 {
        Seq::empty()
    } else {
        entries_of_keys(text, path, ks.drop_last(), fuel) + entries_below(text, path.push(ks.last()), fuel)
    }
}

/// The section `name` of the document: its entries when it is a table, with
/// as much nesting as the text has characters.
pub open spec fn section_at(text: Seq<char>, name: Seq<char>) -> TomlSectionView {
    TomlSectionView {
        name,
        entries: match toml_node_at(text, seq![name]) {
            TomlNodeView::Table(ks) => Some(entries_of_keys(text, seq![name], ks, text.len())),
            _ => None,
        },
    }
}

/// The sections of the TOML document `text`, in order; `None` when `text`
/// is not TOML.
pub open spec fn toml_sections(text: Seq<char>) -> Option<Seq<TomlSectionView>> {
    match toml_node_at(text, Seq::empty()) {
        TomlNodeView::Table(names) => Some(names.map_values(|n: Seq<char>| section_at(text, n))),
        _ => None,
    }
}

/// The keys of `path` after the first.
fn keys_after_first(path: &Vec<String>) -> (res: Vec<String>)
    requires
        path@.len() > 0,
    ensures
        views(res@) == views(path@).skip(1),
{
    let mut res: Vec<String> = Vec::new();
    let mut i: usize = 1;
    while i < path.len()
        invariant
            1 <= i <= path@.len(),
            views(res@) == views(path@).subrange(1, i as int),
        decreases path@.len() - i,
    {
        let k = owned(path[i].as_str());
        let ghost before = views(res@);
        res.push(k);
        i = i + 1;
        proof {
            assert(views(res@) =~= before.push(k@));
            assert(views(path@).subrange(1, i as int) =~= views(path@).subrange(1, i - 1).push(k@));
        }
    }
    assert(views(path@).subrange(1, i as int) =~= views(path@).skip(1));
    res
}

/// Adds the entries under `path` to `out`.
fn push_entries_below(text: &str, path: &mut Vec<String>, fuel: usize, out: &mut Vec<TomlEntry>)
    requires
        old(path)@.len() > 0,
    ensures
        final(path)@ == old(path)@,
        entry_views(final(out)@) == entry_views(old(out)@) + entries_below(text@, views(old(path)@), fuel as nat),
    decreases fuel, 0nat,
{
    if fuel == 0 {
        assert(entry_views(out@) =~= entry_views(out@) + Seq::<TomlEntryView>::empty());
        return;
    }
    let ghost o0 = entry_views(out@);
    let node = toml_node(text, path);
    match node {
        TomlNode::Missing => {
            assert(entry_views(out@) =~= o0 + Seq::<TomlEntryView>::empty());
        },
        TomlNode::Str(s) => {
            let keys = keys_after_first(path);
            let e = TomlEntry { keys, value: Some(s) };
            out.push(e);
            assert(entry_views(out@) =~= o0 + seq![e@]);
        },
        TomlNode::Table(ks) => {
            if ks.len() == 0 {
                let keys = keys_after_first(path);
                let e = TomlEntry { keys, value: None };
                out.push(e);
                assert(entry_views(out@) =~= o0 + seq![e@]);
            } else {
                push_entries_of_keys(text, path, &ks, fuel - 1, out);
            }
        },
        _ => {
            let keys = keys_after_first(path);
            let e = TomlEntry { keys, value: None };
            out.push(e);
            assert(entry_views(out@) =~= o0 + seq![e@]);
        },
    }
}

/// Adds the entries under each of the keys `ks` of the table at `path`.
fn push_entries_of_keys(text: &str, path: &mut Vec<String>, ks: &Vec<String>, fuel: usize, out: &mut Vec<
    TomlEntry,
>)
    requires
        old(path)@.len() > 0,
    ensures
        final(path)@ == old(path)@,
        entry_views(final(out)@) == entry_views(old(out)@) + entries_of_keys(
            text@,
            views(old(path)@),
            views(ks@),
            fuel as nat,
        ),
    decreases fuel, ks@.len(),
{
    let ghost p0 = path@;
    let ghost o0 = entry_views(out@);
    let mut i: usize = 0;
    while i < ks.len()
        invariant
            i <= ks@.len(),
            path@ == p0,
            p0.len() > 0,
            entry_views(out@) == o0 + entries_of_keys(text@, views(p0), views(ks@).take(i as int), fuel as nat),
        decreases ks@.len() - i,
    {
        let k = owned(ks[i].as_str());
        path.push(k);
        proof {
            assert(views(path@) =~= views(p0).push(views(ks@)[i as int]));
        }
        let ghost mid = entry_views(out@);
        push_entries_below(text, path, fuel, out);
        let _ = path.pop();
        proof {
            assert(path@ =~= p0);
            let t = views(ks@).take(i + 1);
            assert(t.drop_last() =~= views(ks@).take(i as int));
            assert(t.last() == views(ks@)[i as int]);
            assert(entry_views(out@) =~= o0 + entries_of_keys(text@, views(p0), t, fuel as nat));
        }
        i = i + 1;
    }
    assert(views(ks@).take(i as int) =~= views(ks@));
}

/// The sections of the TOML document `text` (`toml_edit` reads it), in
/// order, each with, when it is a table, the entries under it: the string
/// values, the other values and the empty tables, each with the keys that
/// lead to it through every nested table, dotted or under its own header.
/// `None` when `text` is not valid TOML.
pub fn parse_toml(text: &str) -> (res: Option<Vec<TomlSection>>)
    ensures
        match res {
            Some(v) => toml_sections(text@) == Some(section_views(v@)),
            None => toml_sections(text@) is None,
        },
{
    let fuel = chars_of(text).len();
    let root = toml_node(text, &Vec::new());
    proof {
        assert(views(Seq::<String>::empty()) =~= Seq::<Seq<char>>::empty());
    }
    let names = match root {
        TomlNode::Table(names) => names,
        _ => {
            return None;
        },
    };
    let ghost nv = views(names@);
    let mut res: Vec<TomlSection> = Vec::new();
    let mut i: usize = 0;
    while i < names.len()
        invariant
            i <= names@.len(),
            nv == views(names@),
            fuel == text@.len(),
            section_views(res@) == nv.take(i as int).map_values(|n: Seq<char>| section_at(text@, n)),
        decreases names@.len() - i,
    {
        let name = owned(names[i].as_str());
        let mut path: Vec<String> = Vec::new();
        path.push(owned(name.as_str()));
        proof {
            assert(views(path@) =~= seq![name@]);
        }
        let entries = match toml_node(text, &path) {
            TomlNode::Table(ks) => {
                let mut out: Vec<TomlEntry> = Vec::new();
                push_entries_of_keys(text, &mut path, &ks, fuel, &mut out);
                assert(entry_views(out@) =~= entries_of_keys(text@, seq![name@], views(ks@), fuel as nat));
                Some(out)
            },
            _ => None,
        };
        let sec = TomlSection { name, entries };
        let ghost before = section_views(res@);
        res.push(sec);
        proof {
            assert(sec@ == section_at(text@, nv[i as int]));
            assert(section_views(res@) =~= before.push(sec@));
            assert(nv.take(i + 1).map_values(|n: Seq<char>| section_at(text@, n)) =~= nv.take(
                i as int,
            ).map_values(|n: Seq<char>| section_at(text@, n)).push(section_at(text@, nv[i as int])));
        }
        i = i + 1;
    }
    assert(nv.take(i as int) =~= nv);
    Some(res)
}

} // verus!
