//! Graph filtering predicates.

use std::collections::HashMap;
use vstd::prelude::*;

use crate::graph::{MediaClass, MediaClassView, Node, Port, PortDirection, opt_class_view};
use crate::text::{contains_ignore_case, join, join_strings, lowercase, owned, push_str, seq_contains, str_eq, str_is_empty, string_views};

verus! {

broadcast use vstd::std_specs::hash::group_hash_axioms;

/// A predicate for filtering nodes in the graph.
#[derive(Debug, Clone, PartialEq, Eq)]
pub enum FilterPredicate {
    /// Match by media class
    MediaClass(MediaClass),
    /// Match by port direction (nodes with ports of this direction)
    Direction(PortDirection),
    /// Match by application name (substring match)
    ApplicationName(String),
    /// Match by node name (substring match)
    NodeName(String),
    /// Match active nodes only
    ActiveOnly,
    /// Match audio nodes only
    AudioOnly,
    /// Match video nodes only
    VideoOnly,
    /// Match MIDI nodes only
    MidiOnly,
    /// Custom predicate with a name
    Custom(String),
}

/// The view of a filter predicate.
pub enum FilterPredicateView {
    /// Match by media class
    MediaClass(MediaClassView),
    /// Match by port direction
    Direction(PortDirection),
    /// Match by application name
    ApplicationName(Seq<char>),
    /// Match by node name
    NodeName(Seq<char>),
    /// Match active nodes only
    ActiveOnly,
    /// Match audio nodes only
    AudioOnly,
    /// Match video nodes only
    VideoOnly,
    /// Match MIDI nodes only
    MidiOnly,
    /// Custom predicate with a name
    Custom(Seq<char>),
}

impl View for FilterPredicate {
    type V = FilterPredicateView;

    open spec fn view(&self) -> FilterPredicateView {
        match self {
            FilterPredicate::MediaClass(m) => FilterPredicateView::MediaClass(m@),
            FilterPredicate::Direction(d) => FilterPredicateView::Direction(*d),
            FilterPredicate::ApplicationName(s) => FilterPredicateView::ApplicationName(s@),
            FilterPredicate::NodeName(s) => FilterPredicateView::NodeName(s@),
            FilterPredicate::ActiveOnly => FilterPredicateView::ActiveOnly,
            FilterPredicate::AudioOnly => FilterPredicateView::AudioOnly,
            FilterPredicate::VideoOnly => FilterPredicateView::VideoOnly,
            FilterPredicate::MidiOnly => FilterPredicateView::MidiOnly,
            FilterPredicate::Custom(s) => FilterPredicateView::Custom(s@),
        }
    }
}

/// The views of a sequence of predicates.
pub open spec fn predicate_views(v: Seq<FilterPredicate>) -> Seq<FilterPredicateView> {
    v.map_values(|p: FilterPredicate| p@)
}

/// Case-insensitive substring test, as the filters compare text.
pub open spec fn text_matches(hay: Seq<char>, needle: Seq<char>) -> bool {
    seq_contains(lowercase(hay), lowercase(needle))
}

/// The node's name or display name contains the text, ignoring case.
pub open spec fn name_matches(node: Node, text: Seq<char>) -> bool {
    text_matches(node.name@, text) || text_matches(node.spec_display_name(), text)
}

/// The node's application name contains the text, ignoring case.
pub open spec fn app_matches(node: Node, text: Seq<char>) -> bool {
    match node.application_name {
        Some(a) => text_matches(a@, text),
        None => false,
    }
}

/// The node has a port of the given direction among its known ports.
pub open spec fn has_port_with_direction(node: Node, ports: Map<u32, Port>, dir: PortDirection) -> bool {
    exists|i: int|
        0 <= i < node.port_ids@.len() && ports.contains_key(#[trigger] node.port_ids@[i].0)
            && ports[node.port_ids@[i].0].direction == dir
}

/// Whether a node matches a predicate, without port information.
pub open spec fn predicate_matches(p: FilterPredicateView, node: Node) -> bool {
    match p {
        FilterPredicateView::MediaClass(mc) => opt_class_view(node.media_class) == Some(mc),
        FilterPredicateView::Direction(_) => true,
        FilterPredicateView::ApplicationName(name) => app_matches(node, name),
        FilterPredicateView::NodeName(name) => name_matches(node, name),
        FilterPredicateView::ActiveOnly => node.is_active,
        FilterPredicateView::AudioOnly => match opt_class_view(node.media_class) {
            Some(mc) => mc.is_audio(),
            None => false,
        },
        FilterPredicateView::VideoOnly => match opt_class_view(node.media_class) {
            Some(mc) => mc.is_video(),
            None => false,
        },
        FilterPredicateView::MidiOnly => match opt_class_view(node.media_class) {
            Some(mc) => mc.is_midi(),
            None => false,
        },
        FilterPredicateView::Custom(_) => true,
    }
}

/// Whether a node matches a predicate, using the ports for direction filters.
pub open spec fn predicate_matches_with_ports(p: FilterPredicateView, node: Node, ports: Map<u32, Port>) -> bool {
    match p {
        FilterPredicateView::Direction(dir) => has_port_with_direction(node, ports, dir),
        _ => predicate_matches(p, node),
    }
}

/// The text shown for a predicate.
pub open spec fn predicate_display_name(p: FilterPredicateView) -> Seq<char> {
    match p {
        FilterPredicateView::MediaClass(mc) => mc.display_name(),
        FilterPredicateView::Direction(PortDirection::Input) => "Inputs"@,
        FilterPredicateView::Direction(PortDirection::Output) => "Outputs"@,
        FilterPredicateView::ApplicationName(name) => "App: "@ + name,
        FilterPredicateView::NodeName(name) => "Name: "@ + name,
        FilterPredicateView::ActiveOnly => "Active Only"@,
        FilterPredicateView::AudioOnly => "Audio"@,
        FilterPredicateView::VideoOnly => "Video"@,
        FilterPredicateView::MidiOnly => "MIDI"@,
        FilterPredicateView::Custom(name) => name,
    }
}

/// Returns true if both media classes are the same.
pub fn media_class_eq(a: &MediaClass, b: &MediaClass) -> (r: bool)
    ensures
        r == (a@ == b@),
{
    match (a, b) {
        (MediaClass::AudioSource, MediaClass::AudioSource) => true,
        (MediaClass::AudioSink, MediaClass::AudioSink) => true,
        (MediaClass::StreamOutputAudio, MediaClass::StreamOutputAudio) => true,
        (MediaClass::StreamInputAudio, MediaClass::StreamInputAudio) => true,
        (MediaClass::VideoSource, MediaClass::VideoSource) => true,
        (MediaClass::VideoSink, MediaClass::VideoSink) => true,
        (MediaClass::MidiSource, MediaClass::MidiSource) => true,
        (MediaClass::MidiSink, MediaClass::MidiSink) => true,
        (MediaClass::AudioVideoSource, MediaClass::AudioVideoSource) => true,
        (MediaClass::AudioDevice, MediaClass::AudioDevice) => true,
        (MediaClass::VideoDevice, MediaClass::VideoDevice) => true,
        (MediaClass::Other(x), MediaClass::Other(y)) => str_eq(x.as_str(), y.as_str()),
        _ => false,
    }
}

impl FilterPredicate {
    /// Returns true if both predicates are the same.
    pub fn same_as(&self, other: &FilterPredicate) -> (r: bool)
        ensures
            r == (self@ == other@),
    {
        match (self, other) {
            (FilterPredicate::MediaClass(a), FilterPredicate::MediaClass(b)) => media_class_eq(a, b),
            (FilterPredicate::Direction(a), FilterPredicate::Direction(b)) => *a == *b,
            (FilterPredicate::ApplicationName(a), FilterPredicate::ApplicationName(b)) => str_eq(a.as_str(), b.as_str()),
            (FilterPredicate::NodeName(a), FilterPredicate::NodeName(b)) => str_eq(a.as_str(), b.as_str()),
            (FilterPredicate::ActiveOnly, FilterPredicate::ActiveOnly) => true,
            (FilterPredicate::AudioOnly, FilterPredicate::AudioOnly) => true,
            (FilterPredicate::VideoOnly, FilterPredicate::VideoOnly) => true,
            (FilterPredicate::MidiOnly, FilterPredicate::MidiOnly) => true,
            (FilterPredicate::Custom(a), FilterPredicate::Custom(b)) => str_eq(a.as_str(), b.as_str()),
            _ => false,
        }
    }

    /// Returns a display name for this filter.
    pub fn display_name(&self) -> (r: String)
        ensures
            r@ == predicate_display_name(self@),
    {
        match self {
            FilterPredicate::MediaClass(mc) => owned(mc.display_name()),
            FilterPredicate::Direction(PortDirection::Input) => owned("Inputs"),
            FilterPredicate::Direction(PortDirection::Output) => owned("Outputs"),
            FilterPredicate::ApplicationName(name) => {
                let mut s = owned("App: ");
                push_str(&mut s, name.as_str());
                s
            },
            FilterPredicate::NodeName(name) => {
                let mut s = owned("Name: ");
                push_str(&mut s, name.as_str());
                s
            },
            FilterPredicate::ActiveOnly => owned("Active Only"),
            FilterPredicate::AudioOnly => owned("Audio"),
            FilterPredicate::VideoOnly => owned("Video"),
            FilterPredicate::MidiOnly => owned("MIDI"),
            FilterPredicate::Custom(name) => name.clone(),
        }
    }

    /// Tests if a node matches this predicate (direction filters always match here).
    pub fn matches(&self, node: &Node) -> (r: bool)
        ensures
            r == predicate_matches(self@, *node),
    {
        match self {
            FilterPredicate::MediaClass(mc) => match &node.media_class {
                Some(m) => media_class_eq(m, mc),
                None => false,
            },
            FilterPredicate::Direction(_) => true,
            FilterPredicate::ApplicationName(name) => match &node.application_name {
                Some(a) => contains_ignore_case(a.as_str(), name.as_str()),
                None => false,
            },
            FilterPredicate::NodeName(name) => {
                contains_ignore_case(node.name.as_str(), name.as_str())
                    || contains_ignore_case(node.display_name(), name.as_str())
            },
            FilterPredicate::ActiveOnly => node.is_active,
            FilterPredicate::AudioOnly => match &node.media_class {
                Some(m) => m.is_audio(),
                None => false,
            },
            FilterPredicate::VideoOnly => match &node.media_class {
                Some(m) => m.is_video(),
                None => false,
            },
            FilterPredicate::MidiOnly => match &node.media_class {
                Some(m) => m.is_midi(),
                None => false,
            },
            FilterPredicate::Custom(_) => true,
        }
    }

    /// Tests if a node matches this predicate, with port information for direction filters.
    pub fn matches_with_ports(&self, node: &Node, ports: &HashMap<u32, Port>) -> (r: bool)
        ensures
            r == predicate_matches_with_ports(self@, *node, ports@),
    {
        match self {
            FilterPredicate::Direction(dir) => {
                let mut i: usize = 0;
                while i < node.port_ids.len()
                    invariant
                        i <= node.port_ids@.len(),
                        self@ == FilterPredicateView::Direction(*dir),
                        forall|k: int| 0 <= k < i ==> !(ports@.contains_key(#[trigger] node.port_ids@[k].0)
                            && ports@[node.port_ids@[k].0].direction == *dir),
                    decreases node.port_ids.len() - i,
                {
                    let pid = node.port_ids[i];
                    match ports.get(&pid.0) {
                        Some(p) => {
                            if p.direction == *dir {
                                proof {
                                    assert(pid == node.port_ids@[i as int]);
                                    assert(ports@.contains_key(pid.0));
                                    assert(ports@[pid.0].direction == *dir);
                                    assert(has_port_with_direction(*node, ports@, *dir));
                                }
                                return true;
                            }
                        },
                        None => {},
                    }
                    i += 1;
                }
                false
            },
            _ => self.matches(node),
        }
    }
}

/// A set of active filters.
#[derive(Debug, Clone, PartialEq, Eq)]
pub struct FilterSet {
    /// Include filters (node must match at least one)
    pub includes: Vec<FilterPredicate>,
    /// Exclude filters (node must not match any)
    pub excludes: Vec<FilterPredicate>,
    /// Search text (matches name or app name)
    pub search: Option<String>,
}

impl Default for FilterSet {
    fn default() -> (r: Self)
        ensures
            r.includes@.len() == 0,
            r.excludes@.len() == 0,
            r.search is None,
    {
        FilterSet { includes: Vec::new(), excludes: Vec::new(), search: None }
    }
}

/// What each kind of predicate accepts, by the node's media class and state:
/// audio filters accept audio sources, sinks, streams and devices and
/// audio/video sources; video filters accept video sources, sinks and devices
/// and audio/video sources; MIDI filters accept MIDI sources and sinks; a node
/// without a media class passes none of them; the active filter accepts active
/// nodes.
pub proof fn lemma_predicate_kinds(node: Node, ports: Map<u32, Port>)
    ensures
        predicate_matches_with_ports(FilterPredicateView::AudioOnly, node, ports) <==> (node.media_class matches Some(m)
            && (m is AudioSource || m is AudioSink || m is StreamOutputAudio || m is StreamInputAudio
                || m is AudioDevice || m is AudioVideoSource)),
        predicate_matches_with_ports(FilterPredicateView::VideoOnly, node, ports) <==> (node.media_class matches Some(m)
            && (m is VideoSource || m is VideoSink || m is VideoDevice || m is AudioVideoSource)),
        predicate_matches_with_ports(FilterPredicateView::MidiOnly, node, ports) <==> (node.media_class matches Some(m)
            && (m is MidiSource || m is MidiSink)),
        predicate_matches_with_ports(FilterPredicateView::ActiveOnly, node, ports) <==> node.is_active,
{
}

/// What a filter set decides, whatever the search text: a node that some
/// exclude filter matches fails; with include filters, a node that none of
/// them matches fails; a node that some include filter matches and no exclude
/// filter matches passes when there is no search text.
pub proof fn lemma_filter_set_laws(
    includes: Seq<FilterPredicateView>,
    excludes: Seq<FilterPredicateView>,
    search: Option<Seq<char>>,
    node: Node,
    ports: Map<u32, Port>,
)
    ensures
        (exists|i: int| 0 <= i < excludes.len() && predicate_matches_with_ports(#[trigger] excludes[i], node, ports))
            ==> !filter_set_matches(includes, excludes, search, node, ports),
        includes.len() > 0 && (forall|i: int| 0 <= i < includes.len() ==> !predicate_matches_with_ports(#[trigger] includes[i], node, ports))
            ==> !filter_set_matches(includes, excludes, search, node, ports),
        (exists|i: int| 0 <= i < includes.len() && predicate_matches_with_ports(#[trigger] includes[i], node, ports))
            && (forall|i: int| 0 <= i < excludes.len() ==> !predicate_matches_with_ports(#[trigger] excludes[i], node, ports))
            && search is None ==> filter_set_matches(includes, excludes, search, node, ports),
        includes.len() == 0 && excludes.len() == 0 && search is None ==> filter_set_matches(includes, excludes, search, node, ports),
{
}

/// Whether a node passes a filter set, given the graph's ports.
pub open spec fn filter_set_matches(
    includes: Seq<FilterPredicateView>,
    excludes: Seq<FilterPredicateView>,
    search: Option<Seq<char>>,
    node: Node,
    ports: Map<u32, Port>,
) -> bool {
    &&& forall|i: int| 0 <= i < excludes.len() ==> !predicate_matches_with_ports(#[trigger] excludes[i], node, ports)
    &&& (includes.len() == 0 || exists|i: int| 0 <= i < includes.len() && predicate_matches_with_ports(#[trigger] includes[i], node, ports))
    &&& match search {
        Some(s) => name_matches(node, s) || app_matches(node, s),
        None => true,
    }
}

/// The description parts of a filter set, in order.
pub open spec fn description_parts(
    includes: Seq<FilterPredicateView>,
    excludes: Seq<FilterPredicateView>,
    search: Option<Seq<char>>,
) -> Seq<Seq<char>> {
    let inc = if includes.len() > 0 {
        seq!["Include: "@ + join(includes.map_values(|p: FilterPredicateView| predicate_display_name(p)), ", "@)]
    } else {
        Seq::empty()
    };
    let exc = if excludes.len() > 0 {
        seq!["Exclude: "@ + join(excludes.map_values(|p: FilterPredicateView| predicate_display_name(p)), ", "@)]
    } else {
        Seq::empty()
    };
    let srch = match search {
        Some(s) => seq!["Search: \""@ + s + "\""@],
        None => Seq::empty(),
    };
    inc + exc + srch
}

/// The description text of a filter set.
pub open spec fn description_text(
    includes: Seq<FilterPredicateView>,
    excludes: Seq<FilterPredicateView>,
    search: Option<Seq<char>>,
) -> Seq<char> {
    let parts = description_parts(includes, excludes, search);
    if parts.len() == 0 {
        "No filters"@
    } else {
        join(parts, " | "@)
    }
}

/// Returns true if some predicate of `preds` matches the node.
fn any_predicate_matches(preds: &Vec<FilterPredicate>, node: &Node, ports: &HashMap<u32, Port>) -> (r: bool)
    ensures
        r == exists|i: int| 0 <= i < preds@.len() && predicate_matches_with_ports(#[trigger] predicate_views(preds@)[i], *node, ports@),
{
    let ghost views = predicate_views(preds@);
    let mut j: usize = 0;
    while j < preds.len()
        invariant
            j <= preds@.len(),
            views == predicate_views(preds@),
            forall|k: int| 0 <= k < j ==> !predicate_matches_with_ports(#[trigger] views[k], *node, ports@),
        decreases preds.len() - j,
    {
        if preds[j].matches_with_ports(node, ports) {
            proof {
                assert(predicate_matches_with_ports(views[j as int], *node, ports@));
            }
            return true;
        }
        j += 1;
    }
    false
}

/// Returns true if some element of `v` is the same predicate as `p`.
fn contains_predicate(v: &Vec<FilterPredicate>, p: &FilterPredicate) -> (r: bool)
    ensures
        r == predicate_views(v@).contains(p@),
{
    let mut i: usize = 0;
    while i < v.len()
        invariant
            i <= v@.len(),
            forall|k: int| 0 <= k < i ==> v@[k]@ != p@,
        decreases v.len() - i,
    {
        if v[i].same_as(p) {
            proof {
                assert(predicate_views(v@)[i as int] == p@);
            }
            return true;
        }
        i += 1;
    }
    proof {
        if predicate_views(v@).contains(p@) {
            let k = choose|k: int| 0 <= k < predicate_views(v@).len() && predicate_views(v@)[k] == p@;
            assert(v@[k]@ == p@);
        }
    }
    false
}

/// Pushes `p` unless an equal predicate is already present.
fn push_unique(v: &mut Vec<FilterPredicate>, p: FilterPredicate)
    ensures
        predicate_views(final(v)@) == if predicate_views(old(v)@).contains(p@) {
            predicate_views(old(v)@)
        } else {
            predicate_views(old(v)@).push(p@)
        },
{
    if !contains_predicate(v, &p) {
        let ghost pv = p@;
        v.push(p);
        proof {
            assert(predicate_views(v@) =~= predicate_views(old(v)@).push(pv));
        }
    }
}

/// The predicate views of `v` with every view equal to `p` removed.
pub open spec fn remove_views(v: Seq<FilterPredicateView>, p: FilterPredicateView) -> Seq<FilterPredicateView> {
    v.filter(|q: FilterPredicateView| q != p)
}

impl FilterSet {
    /// Creates an empty filter set.
    pub fn new() -> (r: Self)
        ensures
            r.includes@.len() == 0,
            r.excludes@.len() == 0,
            r.search is None,
    {
        FilterSet { includes: Vec::new(), excludes: Vec::new(), search: None }
    }

    /// Adds an includes filter unless an equal one is already present.
    pub fn add_include(&mut self, predicate: FilterPredicate)
        ensures
            predicate_views(final(self).includes@) == if predicate_views(old(self).includes@).contains(predicate@) {
                predicate_views(old(self).includes@)
            } else {
                predicate_views(old(self).includes@).push(predicate@)
            },
            final(self).excludes == old(self).excludes,
            final(self).search == old(self).search,
    {
        push_unique(&mut self.includes, predicate);
    }

    /// Removes every includes filter equal to the given one.
    pub fn remove_include(&mut self, predicate: &FilterPredicate)
        ensures
            predicate_views(final(self).includes@) == remove_views(predicate_views(old(self).includes@), predicate@),
            final(self).excludes == old(self).excludes,
            final(self).search == old(self).search,
    {
        let mut kept: Vec<FilterPredicate> = Vec::new();
        let mut rest: Vec<FilterPredicate> = Vec::new();
        std::mem::swap(&mut rest, &mut self.includes);
        let ghost src = rest@;
        let ghost old_views = predicate_views(src);
        let ghost mut n: int = 0;
        while rest.len() > 0
            invariant
                0 <= n <= src.len(),
                old_views == predicate_views(src),
                rest@ == src.skip(n),
                predicate_views(kept@) == remove_views(old_views.take(n), predicate@),
            decreases rest.len(),
        {
            let item = rest.remove(0);
            proof {
                assert(item == src[n]);
                assert(old_views.take(n + 1).drop_last() =~= old_views.take(n));
                assert(old_views.take(n + 1) =~= old_views.take(n).push(item@));
                old_views.take(n).lemma_filter_push(item@, |q: FilterPredicateView| q != predicate@);
            }
            if !item.same_as(predicate) {
                let ghost iv = item@;
                kept.push(item);
                proof {
                    assert(predicate_views(kept@) =~= remove_views(old_views.take(n), predicate@).push(iv));
                }
            }
            proof {
                n = n + 1;
                assert(rest@ =~= src.skip(n));
            }
        }
        proof {
            assert(old_views.take(src.len() as int) =~= old_views);
        }
        self.includes = kept;
    }

    /// Adds an excludes filter unless an equal one is already present.
    pub fn add_exclude(&mut self, predicate: FilterPredicate)
        ensures
            predicate_views(final(self).excludes@) == if predicate_views(old(self).excludes@).contains(predicate@) {
                predicate_views(old(self).excludes@)
            } else {
                predicate_views(old(self).excludes@).push(predicate@)
            },
            final(self).includes == old(self).includes,
            final(self).search == old(self).search,
    {
        push_unique(&mut self.excludes, predicate);
    }

    /// Sets the search text; an empty text clears the search.
    pub fn set_search(&mut self, text: Option<String>)
        ensures
            final(self).search == match text {
                Some(s) => if s@.len() == 0 { None } else { Some(s) },
                None => None,
            },
            final(self).includes == old(self).includes,
            final(self).excludes == old(self).excludes,
    {
        self.search = match text {
            Some(s) => if str_is_empty(s.as_str()) { None } else { Some(s) },
            None => None,
        };
    }

    /// Clears all filters.
    pub fn clear(&mut self)
        ensures
            final(self).includes@.len() == 0,
            final(self).excludes@.len() == 0,
            final(self).search is None,
    {
        self.includes.clear();
        self.excludes.clear();
        self.search = None;
    }

    /// Returns true if no filters are active.
    pub fn is_empty(&self) -> (r: bool)
        ensures
            r == (self.includes@.len() == 0 && self.excludes@.len() == 0 && self.search is None),
    {
        self.includes.len() == 0 && self.excludes.len() == 0 && self.search.is_none()
    }

    /// The search text as characters.
    pub open spec fn search_view(&self) -> Option<Seq<char>> {
        match self.search {
            Some(s) => Some(s@),
            None => None,
        }
    }

    /// Tests if a node passes all filters, without port information.
    pub fn matches(&self, node: &Node) -> (r: bool)
        ensures
            r == filter_set_matches(predicate_views(self.includes@), predicate_views(self.excludes@),
                self.search_view(), *node, Map::empty()),
    {
        let ports: HashMap<u32, Port> = HashMap::new();
        self.matches_with_ports(node, &ports)
    }

    /// Tests if a node passes all filters, with port information for direction
    /// filters: a node matching an exclude filter fails; with include filters,
    /// a node must match at least one of them.
    pub fn matches_with_ports(&self, node: &Node, ports: &HashMap<u32, Port>) -> (r: bool)
        ensures
            r == filter_set_matches(predicate_views(self.includes@), predicate_views(self.excludes@),
                self.search_view(), *node, ports@),
            (exists|i: int| 0 <= i < self.includes@.len()
                && predicate_matches_with_ports(#[trigger] self.includes@[i]@, *node, ports@))
                && (forall|i: int| 0 <= i < self.excludes@.len()
                    ==> !predicate_matches_with_ports(#[trigger] self.excludes@[i]@, *node, ports@))
                && self.search is None ==> r,
            (exists|i: int| 0 <= i < self.excludes@.len()
                && predicate_matches_with_ports(#[trigger] self.excludes@[i]@, *node, ports@)) ==> !r,
            self.includes@.len() > 0 && (forall|i: int| 0 <= i < self.includes@.len()
                ==> !predicate_matches_with_ports(#[trigger] self.includes@[i]@, *node, ports@)) ==> !r,
    {
        proof {
            lemma_filter_set_laws(predicate_views(self.includes@), predicate_views(self.excludes@),
                self.search_view(), *node, ports@);
            assert(predicate_views(self.includes@).len() == self.includes@.len());
            assert(predicate_views(self.excludes@).len() == self.excludes@.len());
            assert forall|i: int| 0 <= i < self.includes@.len() implies predicate_views(self.includes@)[i] == #[trigger] self.includes@[i]@ by {}
            assert forall|i: int| 0 <= i < self.excludes@.len() implies predicate_views(self.excludes@)[i] == #[trigger] self.excludes@[i]@ by {}
        }
        let ghost inc = predicate_views(self.includes@);
        let ghost exc = predicate_views(self.excludes@);
        let mut i: usize = 0;
        while i < self.excludes.len()
            invariant
                i <= self.excludes@.len(),
                exc == predicate_views(self.excludes@),
                forall|k: int| 0 <= k < i ==> !predicate_matches_with_ports(#[trigger] exc[k], *node, ports@),
            decreases self.excludes.len() - i,
        {
            if self.excludes[i].matches_with_ports(node, ports) {
                proof {
                    assert(predicate_matches_with_ports(exc[i as int], *node, ports@));
                }
                return false;
            }
            i += 1;
        }
        if self.includes.len() > 0 && !any_predicate_matches(&self.includes, node, ports) {
            return false;
        }
        match &self.search {
            Some(search) => {
                let name_match = contains_ignore_case(node.name.as_str(), search.as_str())
                    || contains_ignore_case(node.display_name(), search.as_str());
                let app_match = match &node.application_name {
                    Some(a) => contains_ignore_case(a.as_str(), search.as_str()),
                    None => false,
                };
                name_match || app_match
            },
            None => true,
        }
    }

    /// Returns a description of the active filters: the include and exclude
    /// predicates by name ("Include: A, B", "Exclude: C") and the search text in
    /// quotes ("Search: \"x\""), joined by " | "; "No filters" when none is active.
    pub fn description(&self) -> (r: String)
        ensures
            r@ == description_text(predicate_views(self.includes@), predicate_views(self.excludes@), self.search_view()),
    {
        let ghost inc = predicate_views(self.includes@);
        let ghost exc = predicate_views(self.excludes@);
        let mut parts: Vec<String> = Vec::new();
        if self.includes.len() > 0 {
            let names = display_names(&self.includes);
            let joined = join_strings(&names, ", ");
            let mut part = owned("Include: ");
            push_str(&mut part, joined.as_str());
            parts.push(part);
        }
        proof {
            assert(string_views(parts@) =~= (if inc.len() > 0 {
                seq!["Include: "@ + join(inc.map_values(|p: FilterPredicateView| predicate_display_name(p)), ", "@)]
            } else {
                Seq::<Seq<char>>::empty()
            }));
        }
        let ghost before_exc = string_views(parts@);
        if self.excludes.len() > 0 {
            let names = display_names(&self.excludes);
            let joined = join_strings(&names, ", ");
            let mut part = owned("Exclude: ");
            push_str(&mut part, joined.as_str());
            parts.push(part);
        }
        proof {
            assert(string_views(parts@) =~= before_exc + (if exc.len() > 0 {
                seq!["Exclude: "@ + join(exc.map_values(|p: FilterPredicateView| predicate_display_name(p)), ", "@)]
            } else {
                Seq::<Seq<char>>::empty()
            }));
        }
        let ghost before_search = string_views(parts@);
        match &self.search {
            Some(search) => {
                let mut part = owned("Search: \"");
                push_str(&mut part, search.as_str());
                push_str(&mut part, "\"");
                parts.push(part);
                proof {
                    assert(string_views(parts@) =~= before_search + seq![part@]);
                }
            },
            None => {
                proof {
                    assert(string_views(parts@) =~= before_search + Seq::<Seq<char>>::empty());
                }
            },
        }
        proof {
            assert(string_views(parts@) =~= description_parts(inc, exc, self.search_view()));
        }
        if parts.len() == 0 {
            owned("No filters")
        } else {
            join_strings(&parts, " | ")
        }
    }
}

/// The display names of a list of predicates, in order.
fn display_names(preds: &Vec<FilterPredicate>) -> (r: Vec<String>)
    ensures
        string_views(r@) == predicate_views(preds@).map_values(|p: FilterPredicateView| predicate_display_name(p)),
{
    let mut r: Vec<String> = Vec::new();
    let mut i: usize = 0;
    while i < preds.len()
        invariant
            i <= preds@.len(),
            r@.len() == i,
            string_views(r@) == predicate_views(preds@.take(i as int)).map_values(|p: FilterPredicateView| predicate_display_name(p)),
        decreases preds.len() - i,
    {
        let name = preds[i].display_name();
        let ghost old_r = r@;
        let ghost prev = string_views(r@);
        r.push(name);
        proof {
            let next = predicate_views(preds@.take(i + 1)).map_values(|p: FilterPredicateView| predicate_display_name(p));
            let before = predicate_views(preds@.take(i as int)).map_values(|p: FilterPredicateView| predicate_display_name(p));
            assert forall|k: int| 0 <= k < i + 1 implies #[trigger] string_views(r@)[k] == next[k] by {
                if k < i {
                    assert(r@[k] == old_r[k]);
                    assert(string_views(r@)[k] == r@[k]@);
                    assert(prev[k] == old_r[k]@);
                    assert(string_views(r@)[k] == prev[k]);
                    assert(prev[k] == before[k]);
                    assert(preds@.take(i + 1)[k] == preds@.take(i as int)[k]);
                }
            }
            assert(string_views(r@) =~= next);
        }
        i += 1;
    }
    proof {
        assert(preds@.take(preds@.len() as int) =~= preds@);
    }
    r
}

}
