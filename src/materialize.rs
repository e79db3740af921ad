//! Re-reading one feature element from its seek point: its tags, its own
//! coordinate and the coordinates of the nodes it references.
use vstd::prelude::*;
use vstd::string::*;
use vstd::hash_map::StringHashMap;
use crate::feature::{
    Coordinate, Element, FeatureError, XmlEvent, get_node_point, get_tag_kv, get_xml_attr,
    is_feature_name, node_point, same_text, tag_kv, attr_value, coordinates_well_formed,
};
use crate::index::{coord_of, point_map, is_feature_name_exec};

verus! {

/// Texts of attribute pairs.
pub open spec fn pairs_view(s: Seq<(String, String)>) -> Seq<(Seq<char>, Seq<char>)> {
    s.map_values(|p: (String, String)| (p.0@, p.1@))
}

/// Texts of coordinates.
pub open spec fn coords_view(s: Seq<Coordinate>) -> Seq<(Seq<char>, Seq<char>)> {
    s.map_values(|c: Coordinate| coord_of(c))
}

/// Texts of strings.
pub open spec fn texts_view(s: Seq<String>) -> Seq<Seq<char>> {
    s.map_values(|t: String| t@)
}

/// What has been read of one element so far.
pub struct ReadState {
    pub attrs: Seq<(Seq<char>, Seq<char>)>,
    pub nodes: Seq<(Seq<char>, Seq<char>)>,
    pub refs: Seq<Seq<char>>,
    pub done: bool,
}

pub open spec fn read_start() -> ReadState {
    ReadState { attrs: Seq::empty(), nodes: Seq::empty(), refs: Seq::empty(), done: false }
}

/// The read state after one event; `None` where a node's coordinate is no number.
pub open spec fn read_step(s: ReadState, ev: XmlEvent) -> Option<ReadState> {
    if s.done {
        Some(s)
    } else {
        match ev {
            XmlEvent::Start(e) => if e.name@ != "node"@ {
                Some(s)
            } else if !coordinates_well_formed(e.attrs@) {
                None
            } else {
                match node_point(e.attrs@) {
                    Some((_, lat, lon)) => Some(ReadState { nodes: s.nodes.push((lat, lon)), ..s }),
                    None => Some(s),
                }
            },
            XmlEvent::Empty(e) => if e.name@ == "nd"@ {
                match attr_value(e.attrs@, "ref"@) {
                    Some(r) => Some(ReadState { refs: s.refs.push(r), ..s }),
                    None => Some(s),
                }
            } else if e.name@ == "tag"@ {
                match tag_kv(e.attrs@) {
                    Some(kv) => Some(ReadState { attrs: s.attrs.push(kv), ..s }),
                    None => Some(s),
                }
            } else {
                Some(s)
            },
            XmlEvent::End(name) => if is_feature_name(name@) {
                Some(ReadState { done: true, ..s })
            } else {
                Some(s)
            },
            XmlEvent::Eof => Some(ReadState { done: true, ..s }),
            XmlEvent::Other => Some(s),
        }
    }
}

/// The read state after a run of events, or `None` after the first bad coordinate.
pub open spec fn read_pass(evs: Seq<XmlEvent>) -> Option<ReadState>
    decreases evs.len(),
{
    if evs.len() == 0 {
        Some(read_start())
    } else {
        match read_pass(evs.drop_last()) {
            Some(s) => read_step(s, evs.last()),
            None => None,
        }
    }
}

/// The coordinates of the referenced nodes that the point index holds, in
/// reference order; the others are dropped.
pub open spec fn resolved(
    refs: Seq<Seq<char>>,
    points: Map<Seq<char>, (Seq<char>, Seq<char>)>,
) -> Seq<(Seq<char>, Seq<char>)>
    decreases refs.len(),
{
    if refs.len() == 0 {
        Seq::empty()
    } else {
        let rest = resolved(refs.drop_last(), points);
        if points.contains_key(refs.last()) {
            rest.push(points[refs.last()])
        } else {
            rest
        }
    }
}

/// Reads one element, event by event.
pub struct ElementReader {
    attrs: Vec<(String, String)>,
    nodes: Vec<Coordinate>,
    refs: Vec<String>,
    done: bool,
}

impl View for ElementReader {
    type V = ReadState;

    closed spec fn view(&self) -> ReadState {
        ReadState {
            attrs: pairs_view(self.attrs@),
            nodes: coords_view(self.nodes@),
            refs: texts_view(self.refs@),
            done: self.done,
        }
    }
}

impl ElementReader {
    pub fn new() -> (r: ElementReader)
        ensures
            r@ == read_start(),
    {
        let r = ElementReader { attrs: Vec::new(), nodes: Vec::new(), refs: Vec::new(), done: false };
        assert(r@.attrs =~= Seq::empty());
        assert(r@.nodes =~= Seq::empty());
        assert(r@.refs =~= Seq::empty());
        r
    }

    /// Whether the element has been closed (or the stream ended).
    pub fn is_done(&self) -> (r: bool)
        ensures
            r == self@.done,
    {
        self.done
    }

    fn read_start_tag(&mut self, e: &Element) -> (r: Result<(), FeatureError>)
        requires
            !old(self).done,
        ensures
            match read_step(old(self)@, XmlEvent::Start(*e)) {
                Some(s) => r.is_ok() && final(self)@ == s,
                None => r.is_err(),
            },
    {
        if !same_text(e.name.as_str(), "node") {
            return Ok(());
        }
        match get_node_point(e) {
            Ok(Some((_, c))) => {
                let ghost before = self.nodes@;
                self.nodes.push(c);
                assert(coords_view(self.nodes@) =~= coords_view(before).push(coord_of(c)));
                Ok(())
            },
            Ok(None) => Ok(()),
            Err(err) => Err(err),
        }
    }

    fn read_empty_tag(&mut self, e: &Element)
        requires
            !old(self).done,
        ensures
            read_step(old(self)@, XmlEvent::Empty(*e)) == Some(final(self)@),
    {
        if same_text(e.name.as_str(), "nd") {
            if let Some(r) = get_xml_attr(e, "ref") {
                let ghost before = self.refs@;
                self.refs.push(r);
                assert(texts_view(self.refs@) =~= texts_view(before).push(r@));
            }
        } else if same_text(e.name.as_str(), "tag") {
            if let Some((k, v)) = get_tag_kv(e) {
                let ghost before = self.attrs@;
                let ghost kv = (k@, v@);
                self.attrs.push((k, v));
                assert(pairs_view(self.attrs@) =~= pairs_view(before).push(kv));
            }
        }
    }

    /// Takes one event of the element; nothing changes once it is done.
    pub fn step(&mut self, ev: &XmlEvent) -> (r: Result<(), FeatureError>)
        ensures
            match read_step(old(self)@, *ev) {
                Some(s) => r.is_ok() && final(self)@ == s,
                None => r.is_err(),
            },
    {
        if self.done {
            return Ok(());
        }
        match ev {
            XmlEvent::Start(e) => self.read_start_tag(e),
            XmlEvent::Empty(e) => {
                self.read_empty_tag(e);
                Ok(())
            },
            XmlEvent::End(name) => {
                if is_feature_name_exec(name.as_str()) {
                    self.done = true;
                }
                Ok(())
            },
            XmlEvent::Eof => {
                self.done = true;
                Ok(())
            },
            XmlEvent::Other => Ok(()),
        }
    }

    /// The element's tags, and its coordinates: its own first, then those of
    /// its references that the point index resolves, in reference order.
    pub fn finish(self, points: &StringHashMap<Coordinate>) -> (r: (Vec<(String, String)>, Vec<Coordinate>))
        ensures
            pairs_view(r.0@) == self@.attrs,
            coords_view(r.1@) == self@.nodes + resolved(self@.refs, point_map(points@)),
    {
        let mut nodes = self.nodes;
        let refs = self.refs;
        resolve_refs(&refs, points, &mut nodes);
        (self.attrs, nodes)
    }
}

/// Appends the coordinate of each reference that the point index holds, in order.
pub fn resolve_refs(refs: &Vec<String>, points: &StringHashMap<Coordinate>, nodes: &mut Vec<Coordinate>)
    ensures
        coords_view(final(nodes)@) == coords_view(old(nodes)@) + resolved(texts_view(refs@), point_map(points@)),
{
    let ghost start = coords_view(nodes@);
    let mut i: usize = 0;
    while i < refs.len()
        invariant
            i <= refs@.len(),
            coords_view(nodes@) == start + resolved(texts_view(refs@.take(i as int)), point_map(points@)),
        decreases refs@.len() - i,
    {
        assert(texts_view(refs@.take(i as int + 1)).drop_last() =~= texts_view(refs@.take(i as int)));
        match points.get(refs[i].as_str()) {
            Some(c) => {
                let ghost before = nodes@;
                nodes.push(c.clone());
                assert(coords_view(nodes@) =~= coords_view(before).push(coord_of(*c)));
            },
            None => {},
        }
        i = i + 1;
        assert(coords_view(nodes@) =~= start + resolved(texts_view(refs@.take(i as int)), point_map(points@)));
    }
    assert(refs@.take(i as int) =~= refs@);
}

/// Reads the element that a run of events starts with, up to its close, and
/// resolves its references against the point index.
pub fn xml_seek_to_attrs(
    events: &Vec<XmlEvent>,
    points: &StringHashMap<Coordinate>,
) -> (r: Result<(Vec<(String, String)>, Vec<Coordinate>), FeatureError>)
    ensures
        match read_pass(events@) {
            Some(s) => r.is_ok() && pairs_view(r.unwrap().0@) == s.attrs
                && coords_view(r.unwrap().1@) == s.nodes + resolved(s.refs, point_map(points@)),
            None => r.is_err(),
        },
{
    let mut reader = ElementReader::new();
    let mut i: usize = 0;
    while i < events.len()
        invariant
            i <= events@.len(),
            read_pass(events@.take(i as int)) == Some(reader@),
        decreases events@.len() - i,
    {
        assert(events@.take(i as int + 1).drop_last() =~= events@.take(i as int));
        match reader.step(&events[i]) {
            Ok(()) => {},
            Err(err) => {
                proof {
                    lemma_read_pass_stays_none(events@, i as int + 1);
                }
                return Err(err);
            },
        }
        i = i + 1;
    }
    assert(events@.take(i as int) =~= events@);
    Ok(reader.finish(points))
}

proof fn lemma_read_pass_stays_none(evs: Seq<XmlEvent>, n: int)
    requires
        0 <= n <= evs.len(),
        read_pass(evs.take(n)).is_none(),
    ensures
        read_pass(evs).is_none(),
    decreases evs.len() - n,
{
    if n < evs.len() {
        assert(evs.take(n + 1).drop_last() =~= evs.take(n));
        lemma_read_pass_stays_none(evs, n + 1);
    } else {
        assert(evs.take(n) =~= evs);
    }
}

} // verus!
