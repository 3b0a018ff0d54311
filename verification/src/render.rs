//! Rendering a section: each part's `{widget}` placeholders are filled with
//! what the widget shows, and the columns each widget occupies are recorded
//! so that clicks can be routed back to it.
use vstd::prelude::*;

use crate::config_map::{lookup, Config};
use crate::state::{first_active, lemma_first_active, ZellijState};
use crate::style::{formatted, FormattedPart};
use crate::tabs::{joined, TabsWidget};
use crate::terminal::{display_width, measure_text_width};
use crate::text::{
    chars_of, contains, contains_seq, copy_range, lemma_first_match, match_at, starts_with,
    string_of,
};

verus! {

/// A widget's name and the columns `[start, end)` it occupies.
pub type Hit = (String, usize, usize);

/// The view of a hit.
pub type HitView = (Seq<char>, usize, usize);

/// A rendered section: its text and where each widget in it was drawn.
pub struct RenderedParts {
    pub output: String,
    pub hits: Vec<Hit>,
}

/// What a rendered section stands for.
pub struct RenderedView {
    pub output: Seq<char>,
    pub hits: Seq<HitView>,
}

pub open spec fn hits_view(h: Seq<Hit>) -> Seq<HitView> {
    h.map_values(|x: Hit| (x.0@, x.1, x.2))
}

impl View for RenderedParts {
    type V = RenderedView;

    open spec fn view(&self) -> RenderedView {
        RenderedView { output: self.output@, hits: hits_view(self.hits@) }
    }
}

/// The widgets a section can show: the tab list, and the outputs of the other
/// widgets by placeholder name.
pub struct Widgets {
    pub tabs: Option<TabsWidget>,
    pub outputs: Config,
}

/// `a + b`, held at `usize::MAX`.
pub open spec fn sat_add(a: usize, b: usize) -> usize {
    if a + b > usize::MAX {
        usize::MAX
    } else {
        (a + b) as usize
    }
}

/// The hits moved `by` columns to the right.
pub open spec fn shifted(h: Seq<HitView>, by: usize) -> Seq<HitView> {
    h.map_values(|x: HitView| (x.0, sat_add(x.1, by), sat_add(x.2, by)))
}

pub open spec fn empty_view() -> RenderedView {
    RenderedView { output: seq![], hits: seq![] }
}

/// `b` drawn after `a`.
pub open spec fn appended(a: RenderedView, b: RenderedView) -> RenderedView {
    RenderedView {
        output: a.output + b.output,
        hits: a.hits + shifted(b.hits, display_width(a.output)),
    }
}

/// The kind of widget a placeholder names: `command_*` and `pipe_*` name
/// instances of the command and pipe widgets.
pub open spec fn widget_type_spec(name: Seq<char>) -> Seq<char> {
    if starts_with(name, "command_"@) {
        "command"@
    } else if starts_with(name, "pipe_"@) {
        "pipe"@
    } else {
        name
    }
}

/// The kind of widget a placeholder names.
pub fn widget_type(name: &str) -> (res: String)
    ensures
        res@ == widget_type_spec(name@),
{
    let n = chars_of(name);
    if crate::text::has_prefix(&n, &chars_of("command_")) {
        string_of(&chars_of("command"))
    } else if crate::text::has_prefix(&n, &chars_of("pipe_")) {
        string_of(&chars_of("pipe"))
    } else {
        string_of(&n)
    }
}

/// A character of a widget name.
pub open spec fn is_name_char(c: char) -> bool {
    ('a' <= c && c <= 'z') || ('0' <= c && c <= '9') || c == '_'
}

/// The end of the run of name characters that starts at `i`.
pub open spec fn name_end(c: Seq<char>, i: int) -> int
    decreases c.len() - i,
{
    if i < 0 || i >= c.len() || !is_name_char(c[i]) {
        i
    } else {
        name_end(c, i + 1)
    }
}

pub proof fn lemma_name_end(c: Seq<char>, i: int)
    requires
        0 <= i,
    ensures
        i <= name_end(c, i),
        name_end(c, i) <= c.len() || name_end(c, i) == i,
    decreases c.len() - i,
{
    if i < c.len() && is_name_char(c[i]) {
        lemma_name_end(c, i + 1);
    }
}

/// The placeholder of the tab list.
pub open spec fn tabs_placeholder() -> Seq<char> {
    "{tabs}"@
}

/// Some part names the tab list.
pub open spec fn parts_name_tabs(parts: Seq<FormattedPart>) -> bool {
    exists|i: int|
        0 <= i < parts.len() && contains_seq((#[trigger] parts[i]).content@, tabs_placeholder())
}

/// Whether some part names the tab list.
pub fn name_tabs(parts: &Vec<FormattedPart>) -> (res: bool)
    ensures
        res == parts_name_tabs(parts@),
{
    let ph = chars_of("{tabs}");
    let mut i: usize = 0;
    while i < parts.len()
        invariant
            i <= parts@.len(),
            ph@ == tabs_placeholder(),
            forall|k: int|
                0 <= k < i ==> !contains_seq((#[trigger] parts@[k]).content@, tabs_placeholder()),
        decreases parts.len() - i,
    {
        if contains(&chars_of(parts[i].content.as_str()), &ph) {
            assert(contains_seq(parts@[i as int].content@, tabs_placeholder()));
            return true;
        }
        i += 1;
    }
    false
}

impl Widgets {
    /// The tab list can be drawn for `state` whatever width it is limited to.
    pub open spec fn ready(self, state: ZellijState) -> bool {
        match self.tabs {
            Some(t) => {
                &&& TabsWidget::positions_ok(state.tabs@)
                &&& (t.tab_display_count matches Some(n) && state.tabs@.len() > n ==> first_active(
                    state.tabs@,
                    0,
                ) is Some)
            },
            None => true,
        }
    }

    /// Whether the tab list can be drawn for `state`.
    pub fn is_ready(&self, state: &ZellijState) -> (res: bool)
        ensures
            res == self.ready(*state),
    {
        match &self.tabs {
            None => true,
            Some(t) => {
                let mut i: usize = 0;
                while i < state.tabs.len()
                    invariant
                        i <= state.tabs@.len(),
                        self.tabs is Some,
                        forall|k: int| 0 <= k < i ==> (#[trigger] state.tabs@[k]).position < u32::MAX,
                    decreases state.tabs.len() - i,
                {
                    if state.tabs[i].position >= u32::MAX as usize {
                        assert(!TabsWidget::positions_ok(state.tabs@)) by {
                            assert(state.tabs@[i as int].position >= u32::MAX);
                        }
                        return false;
                    }
                    i += 1;
                }
                match t.tab_display_count {
                    Some(n) => {
                        if state.tabs.len() <= n {
                            return true;
                        }
                        let mut j: usize = 0;
                        while j < state.tabs.len()
                            invariant
                                j <= state.tabs@.len(),
                                TabsWidget::positions_ok(state.tabs@),
                                forall|k: int| 0 <= k < j ==> !(#[trigger] state.tabs@[k]).active,
                            decreases state.tabs.len() - j,
                        {
                            if state.tabs[j].active {
                                proof {
                                    lemma_first_active(state.tabs@, 0);
                                }
                                assert(state.tabs@[j as int].active);
                                return true;
                            }
                            j += 1;
                        }
                        proof {
                            lemma_first_active(state.tabs@, 0);
                        }
                        false
                    },
                    None => true,
                }
            },
        }
    }

    /// What the widget instance `name` shows.
    pub open spec fn output_for(self, state: ZellijState, name: Seq<char>) -> Option<Seq<char>> {
        if name == "tabs"@ && self.tabs is Some {
            Some(joined((self.tabs->0).rendered_spec(state)))
        } else {
            lookup(self.outputs@, name)
        }
    }

    /// A part's content with each known `{name}` replaced by what the widget
    /// shows, scanned from `i` on after `acc` was produced; each replacement
    /// is recorded with its columns.
    pub open spec fn expand_from(
        self,
        state: ZellijState,
        c: Seq<char>,
        i: int,
        acc: Seq<char>,
        hits: Seq<HitView>,
    ) -> (Seq<char>, Seq<HitView>)
        decreases c.len() - i,
    {
        if i < 0 || i >= c.len() {
            (acc, hits)
        } else {
            let j = name_end(c, i + 1);
            let name = c.subrange(i + 1, j);
            if c[i] == '{' && i + 1 < j && j < c.len() && c[j] == '}' && self.output_for(
                state,
                name,
            ) is Some {
                let out = self.output_for(state, name)->0;
                let start = display_width(acc);
                proof {
                    lemma_name_end(c, i + 1);
                }
                self.expand_from(
                    state,
                    c,
                    j + 1,
                    acc + out,
                    hits.push((name, start, sat_add(start, display_width(out)))),
                )
            } else {
                self.expand_from(state, c, i + 1, acc.push(c[i]), hits)
            }
        }
    }

    /// The parts drawn one after the other.
    pub open spec fn render_spec(self, state: ZellijState, parts: Seq<FormattedPart>) -> RenderedView
        decreases parts.len(),
    {
        if parts.len() == 0 {
            empty_view()
        } else {
            let prev = self.render_spec(state, parts.drop_last());
            let (text, hits) = self.expand_from(state, parts.last().content@, 0, seq![], seq![]);
            appended(prev, RenderedView { output: formatted(parts.last()@.style, text), hits })
        }
    }
}

fn shift_hits(hits: &mut Vec<Hit>, other: Vec<Hit>, by: usize)
    ensures
        hits_view(final(hits)@) == hits_view(old(hits)@) + shifted(hits_view(other@), by),
{
    let ghost start = hits_view(hits@);
    let mut i: usize = 0;
    let mut other = other;
    let ghost ov = hits_view(other@);
    while i < other.len()
        invariant
            i <= other@.len(),
            ov == hits_view(other@),
            hits_view(hits@) == start + shifted(ov, by).take(i as int),
        decreases other.len() - i,
    {
        let name = other[i].0.clone();
        let a = other[i].1.saturating_add(by);
        let b = other[i].2.saturating_add(by);
        assert(ov[i as int] == (other@[i as int].0@, other@[i as int].1, other@[i as int].2));
        assert(shifted(ov, by)[i as int] == (name@, a, b));
        let ghost prev = hits_view(hits@);
        hits.push((name, a, b));
        assert(hits_view(hits@) =~= prev.push((name@, a, b)));
        assert(hits_view(hits@) =~= start + shifted(ov, by).take(i + 1));
        i += 1;
    }
    assert(shifted(ov, by).take(other@.len() as int) =~= shifted(ov, by));
}

impl RenderedParts {
    /// Nothing drawn.
    pub fn new() -> (res: RenderedParts)
        ensures
            res@ == empty_view(),
    {
        let res = RenderedParts { output: String::new(), hits: Vec::new() };
        assert(res@.hits =~= Seq::<HitView>::empty());
        res
    }

    /// Draws `other` after this section.
    pub fn append(&mut self, other: RenderedParts)
        ensures
            final(self)@ == appended(old(self)@, other@),
    {
        let width = measure_text_width(self.output.as_str());
        let RenderedParts { output, hits } = other;
        self.output.append(output.as_str());
        shift_hits(&mut self.hits, hits, width);
    }
}

impl Widgets {
    fn output_of(&self, state: &ZellijState, name: &Vec<char>) -> (res: Option<String>)
        requires
            name@ == "tabs"@ ==> self.ready(*state),
        ensures
            match self.output_for(*state, name@) {
                Some(o) => res matches Some(r) && r@ == o,
                None => res is None,
            },
    {
        if crate::config_map::same_chars(name, &chars_of("tabs")) {
            if let Some(t) = &self.tabs {
                return Some(t.process("tabs", state));
            }
        }
        let key = string_of(name);
        self.outputs.get_owned(key.as_str())
    }

    fn scan_name(c: &Vec<char>, i: usize) -> (res: usize)
        requires
            i <= c@.len(),
        ensures
            res == name_end(c@, i as int),
            i <= res <= c@.len(),
    {
        let mut j = i;
        while j < c.len() && (('a' <= c[j] && c[j] <= 'z') || ('0' <= c[j] && c[j] <= '9') || c[j]
            == '_')
            invariant
                i <= j <= c@.len(),
                name_end(c@, i as int) == name_end(c@, j as int),
            decreases c.len() - j,
        {
            j += 1;
        }
        j
    }

    /// A part's content with its widgets filled in, and where they were drawn.
    fn expand(&self, state: &ZellijState, content: &String) -> (res: (Vec<char>, Vec<Hit>))
        requires
            contains_seq(content@, tabs_placeholder()) ==> self.ready(*state),
        ensures
            (res.0@, hits_view(res.1@)) == self.expand_from(*state, content@, 0, seq![], seq![]),
    {
        let c = chars_of(content.as_str());
        let mut acc: Vec<char> = Vec::new();
        let mut hits: Vec<Hit> = Vec::new();
        let mut i: usize = 0;
        assert(hits_view(hits@) =~= Seq::<HitView>::empty());
        while i < c.len()
            invariant
                i <= c@.len(),
                c@ == content@,
                contains_seq(content@, tabs_placeholder()) ==> self.ready(*state),
                self.expand_from(*state, c@, i as int, acc@, hits_view(hits@)) == self.expand_from(
                    *state,
                    c@,
                    0,
                    seq![],
                    seq![],
                ),
            decreases c.len() - i,
        {
            let j = Self::scan_name(&c, i + 1);
            let mut replaced = false;
            if c[i] == '{' && i + 1 < j && j < c.len() && c[j] == '}' {
                let name = copy_range(&c, i + 1, j);
                proof {
                    if name@ == "tabs"@ {
                        reveal_strlit("tabs");
                        reveal_strlit("{tabs}");
                        let sub = c@.subrange(i as int, j + 1);
                        assert(name@.len() == 4);
                        assert(j == i + 5);
                        assert(sub[0] == '{' && sub[5] == '}');
                        assert forall|k: int| 1 <= k < 5 implies sub[k] == name@[k - 1] by {}
                        assert(sub =~= tabs_placeholder());
                        assert(match_at(c@, tabs_placeholder(), i as int));
                        lemma_first_match(c@, tabs_placeholder(), 0);
                        assert(contains_seq(content@, tabs_placeholder()));
                    }
                }
                if let Some(out) = self.output_of(state, &name) {
                    let start = measure_text_width(string_of(&acc).as_str());
                    let w = measure_text_width(out.as_str());
                    let ghost before = hits_view(hits@);
                    hits.push((string_of(&name), start, start.saturating_add(w)));
                    assert(hits_view(hits@) =~= before.push((name@, start, sat_add(start, w))));
                    let o = chars_of(out.as_str());
                    crate::text::append_chars(&mut acc, &o);
                    i = j + 1;
                    replaced = true;
                }
            }
            if !replaced {
                acc.push(c[i]);
                i += 1;
            }
        }
        (acc, hits)
    }

    /// The parts drawn one after the other, with their widgets filled in.
    pub fn render_parts(&self, parts: &Vec<FormattedPart>, state: &ZellijState) -> (res: RenderedParts)
        requires
            parts_name_tabs(parts@) ==> self.ready(*state),
        ensures
            res@ == self.render_spec(*state, parts@),
    {
        let mut out = RenderedParts::new();
        let mut i: usize = 0;
        while i < parts.len()
            invariant
                i <= parts@.len(),
                parts_name_tabs(parts@) ==> self.ready(*state),
                out@ == self.render_spec(*state, parts@.take(i as int)),
            decreases parts.len() - i,
        {
            assert(contains_seq(parts@[i as int].content@, tabs_placeholder()) ==> parts_name_tabs(
                parts@,
            ));
            let (text, hits) = self.expand(state, &parts[i].content);
            let text = string_of(&text);
            let piece = RenderedParts { output: parts[i].format_string(text.as_str()), hits };
            out.append(piece);
            assert(parts@.take(i + 1).drop_last() =~= parts@.take(i as int));
            i += 1;
        }
        assert(parts@.take(parts@.len() as int) =~= parts@);
        out
    }
}

} // verus!
