//! The two forward passes over a feature file: the seek index (address key to
//! the stream position just before the element that carries the address) and
//! the point index (node id to coordinate).
use vstd::prelude::*;
use vstd::string::*;
use vstd::hash_map::StringHashMap;
use crate::feature::{
    Coordinate, Element, FeatureError, XmlEvent, get_node_point, get_tag_kv, is_feature_name,
    node_point, same_text, tag_kv, coordinates_well_formed,
};
use crate::normalize::{address_key, norm_houseid};

verus! {

/// Address key to the stream position just before the element carrying it.
pub type SeekIndex = StringHashMap<u64>;

/// Node id to coordinate.
pub type PointIndex = StringHashMap<Coordinate>;

/// An empty point index.
pub fn new_point_index() -> (r: PointIndex)
    ensures
        point_map(r@) == Map::<Seq<char>, (Seq<char>, Seq<char>)>::empty(),
{
    let r = StringHashMap::new();
    assert(point_map(r@) =~= Map::empty());
    r
}

/// The state of the seek index pass.
pub struct SeekState {
    pub index: Map<Seq<char>, u64>,
    pub inside: bool,
    pub seek: u64,
    pub housename: Seq<char>,
    pub housenumber: Seq<char>,
    pub street: Seq<char>,
}

pub open spec fn seek_start() -> SeekState {
    SeekState {
        index: Map::empty(),
        inside: false,
        seek: 0,
        housename: Seq::empty(),
        housenumber: Seq::empty(),
        street: Seq::empty(),
    }
}

/// An address tag fills its field only where the field is still empty.
pub open spec fn take_tag(s: SeekState, k: Seq<char>, v: Seq<char>) -> SeekState {
    if k == "addr:housename"@ && s.housename.len() == 0 {
        SeekState { housename: v, ..s }
    } else if k == "addr:housenumber"@ && s.housenumber.len() == 0 {
        SeekState { housenumber: v, ..s }
    } else if k == "addr:street"@ && s.street.len() == 0 {
        SeekState { street: v, ..s }
    } else {
        s
    }
}

/// Closing a feature registers up to two keys at the frozen seek point and resets.
pub open spec fn close_feature(s: SeekState) -> SeekState {
    let i1 = if s.street.len() > 0 && s.housename.len() > 0 {
        s.index.insert(address_key(s.street, s.housename), s.seek)
    } else {
        s.index
    };
    let i2 = if s.street.len() > 0 && s.housenumber.len() > 0 {
        i1.insert(address_key(s.street, s.housenumber), s.seek)
    } else {
        i1
    };
    SeekState {
        index: i2,
        inside: false,
        seek: s.seek,
        housename: Seq::empty(),
        housenumber: Seq::empty(),
        street: Seq::empty(),
    }
}

/// The state change for one event, where `pos` is the stream position after it.
pub open spec fn seek_step(s: SeekState, ev: XmlEvent, pos: u64) -> SeekState {
    let t = match ev {
        XmlEvent::Start(e) => if is_feature_name(e.name@) {
            SeekState { inside: true, ..s }
        } else {
            s
        },
        XmlEvent::Empty(e) => if e.name@ == "tag"@ && s.inside {
            match tag_kv(e.attrs@) {
                Some((k, v)) => take_tag(s, k, v),
                None => s,
            }
        } else {
            s
        },
        XmlEvent::End(name) => if is_feature_name(name@) {
            close_feature(s)
        } else {
            s
        },
        _ => s,
    };
    if t.inside {
        t
    } else {
        SeekState { seek: pos, ..t }
    }
}

/// The state after a whole run of events; `pos[i]` is the position after `evs[i]`.
pub open spec fn seek_pass(evs: Seq<XmlEvent>, pos: Seq<u64>) -> SeekState
    decreases evs.len(),
{
    if evs.len() == 0 || pos.len() < evs.len() {
        seek_start()
    } else {
        seek_step(
            seek_pass(evs.drop_last(), pos.subrange(0, evs.len() - 1)),
            evs.last(),
            pos[evs.len() - 1],
        )
    }
}

/// The stream position just before event `i`.
pub open spec fn position_before(pos: Seq<u64>, i: int) -> u64 {
    if i == 0 {
        0
    } else {
        pos[i - 1]
    }
}

/// The event opens a node or a way.
pub open spec fn starts_feature(ev: XmlEvent) -> bool {
    match ev {
        XmlEvent::Start(e) => is_feature_name(e.name@),
        _ => false,
    }
}

/// Position `p` is the one just before some feature start among the events.
pub open spec fn is_feature_start(evs: Seq<XmlEvent>, pos: Seq<u64>, p: u64) -> bool {
    exists|i: int| 0 <= i < evs.len() && starts_feature(#[trigger] evs[i]) && position_before(pos, i) == p
}

proof fn lemma_seek_pass_inv(evs: Seq<XmlEvent>, pos: Seq<u64>)
    requires
        pos.len() == evs.len(),
    ensures
        ({
            let s = seek_pass(evs, pos);
            &&& !s.inside ==> s.seek == position_before(pos, evs.len() as int)
            &&& !s.inside ==> s.street.len() == 0
            &&& s.inside ==> is_feature_start(evs, pos, s.seek)
            &&& forall|k: Seq<char>| #[trigger] s.index.contains_key(k) ==> is_feature_start(evs, pos, s.index[k])
        }),
    decreases evs.len(),
{
    if evs.len() > 0 {
        let n = evs.len() - 1;
        let e0 = evs.drop_last();
        let p0 = pos.subrange(0, n);
        lemma_seek_pass_inv(e0, p0);
        let s = seek_pass(e0, p0);
        assert forall|p: u64| is_feature_start(e0, p0, p) implies is_feature_start(evs, pos, p) by {
            let i = choose|i: int| 0 <= i < e0.len() && starts_feature(#[trigger] e0[i]) && position_before(p0, i) == p;
            assert(evs[i] == e0[i]);
        }
        if starts_feature(evs[n]) && !s.inside {
            assert(starts_feature(evs[n]) && position_before(pos, n) == s.seek);
        }
    }
}

/// Every offset in the seek index is the stream position just before the
/// start tag of a node or way: seeking there lands on a feature element.
pub proof fn lemma_seek_offsets_at_feature_starts(evs: Seq<XmlEvent>, pos: Seq<u64>, key: Seq<char>)
    requires
        pos.len() == evs.len(),
        seek_pass(evs, pos).index.contains_key(key),
    ensures
        exists|i: int| 0 <= i < evs.len() && starts_feature(#[trigger] evs[i])
            && position_before(pos, i) == seek_pass(evs, pos).index[key],
{
    lemma_seek_pass_inv(evs, pos);
}

/// The seek index pass, fed one event at a time.
pub struct SeekIndexBuilder {
    index: StringHashMap<u64>,
    inside: bool,
    seek: u64,
    housename: String,
    housenumber: String,
    street: String,
}

impl View for SeekIndexBuilder {
    type V = SeekState;

    closed spec fn view(&self) -> SeekState {
        SeekState {
            index: self.index@,
            inside: self.inside,
            seek: self.seek,
            housename: self.housename@,
            housenumber: self.housenumber@,
            street: self.street@,
        }
    }
}

impl SeekIndexBuilder {
    pub fn new() -> (r: SeekIndexBuilder)
        ensures
            r@ == seek_start(),
    {
        SeekIndexBuilder {
            index: StringHashMap::new(),
            inside: false,
            seek: 0,
            housename: String::new(),
            housenumber: String::new(),
            street: String::new(),
        }
    }

    fn take_tag_exec(&mut self, e: &Element)
        requires
            old(self).inside,
        ensures
            final(self)@ == match tag_kv(e.attrs@) {
                Some((k, v)) => take_tag(old(self)@, k, v),
                None => old(self)@,
            },
    {
        if let Some((k, v)) = get_tag_kv(e) {
            if same_text(k.as_str(), "addr:housename") && self.housename.unicode_len() == 0 {
                self.housename = v;
            } else if same_text(k.as_str(), "addr:housenumber") && self.housenumber.unicode_len() == 0 {
                self.housenumber = v;
            } else if same_text(k.as_str(), "addr:street") && self.street.unicode_len() == 0 {
                self.street = v;
            }
        }
    }

    fn close(&mut self)
        ensures
            final(self)@ == close_feature(old(self)@),
    {
        if self.street.unicode_len() > 0 && self.housename.unicode_len() > 0 {
            let id = norm_houseid(self.street.as_str(), self.housename.as_str());
            self.index.insert(id, self.seek);
        }
        if self.street.unicode_len() > 0 && self.housenumber.unicode_len() > 0 {
            let id = norm_houseid(self.street.as_str(), self.housenumber.as_str());
            self.index.insert(id, self.seek);
        }
        self.inside = false;
        self.housename = String::new();
        self.housenumber = String::new();
        self.street = String::new();
    }

    /// Takes one event; `position` is the stream position right after it.
    pub fn step(&mut self, ev: &XmlEvent, position: u64)
        ensures
            final(self)@ == seek_step(old(self)@, *ev, position),
    {
        match ev {
            XmlEvent::Start(e) => {
                if is_feature_name_exec(e.name.as_str()) {
                    self.inside = true;
                }
            },
            XmlEvent::Empty(e) => {
                if same_text(e.name.as_str(), "tag") && self.inside {
                    self.take_tag_exec(e);
                }
            },
            XmlEvent::End(name) => {
                if is_feature_name_exec(name.as_str()) {
                    self.close();
                }
            },
            _ => {},
        }
        if !self.inside {
            self.seek = position;
        }
    }

    /// The index built so far.
    pub fn into_index(self) -> (r: StringHashMap<u64>)
        ensures
            r@ == self@.index,
    {
        self.index
    }
}

/// Whether a name is `node` or `way`.
pub fn is_feature_name_exec(name: &str) -> (r: bool)
    ensures
        r == is_feature_name(name@),
{
    same_text(name, "node") || same_text(name, "way")
}

/// Runs the seek index pass over a whole event run; `positions[i]` is the
/// stream position right after `events[i]`.
pub fn get_houseseeks(events: &Vec<XmlEvent>, positions: &Vec<u64>) -> (r: StringHashMap<u64>)
    requires
        positions@.len() == events@.len(),
    ensures
        r@ == seek_pass(events@, positions@).index,
{
    let mut b = SeekIndexBuilder::new();
    let mut i: usize = 0;
    while i < events.len()
        invariant
            positions@.len() == events@.len(),
            i <= events@.len(),
            b@ == seek_pass(events@.take(i as int), positions@.take(i as int)),
        decreases events@.len() - i,
    {
        assert(events@.take(i as int + 1).drop_last() =~= events@.take(i as int));
        assert(positions@.take(i as int + 1).subrange(0, i as int) =~= positions@.take(i as int));
        b.step(&events[i], positions[i]);
        i = i + 1;
    }
    assert(events@.take(i as int) =~= events@);
    assert(positions@.take(i as int) =~= positions@);
    b.into_index()
}

/// A coordinate as its two decimal texts.
pub open spec fn coord_of(c: Coordinate) -> (Seq<char>, Seq<char>) {
    (c.lat@, c.lon@)
}

/// What a point index holds: node id to the texts of its coordinate.
pub open spec fn point_map(m: Map<Seq<char>, Coordinate>) -> Map<Seq<char>, (Seq<char>, Seq<char>)> {
    m.map_values(|c: Coordinate| coord_of(c))
}

/// The point index after one event; `None` where a node's coordinate is no number.
pub open spec fn points_step(
    m: Map<Seq<char>, (Seq<char>, Seq<char>)>,
    ev: XmlEvent,
) -> Option<Map<Seq<char>, (Seq<char>, Seq<char>)>> {
    match ev {
        XmlEvent::Start(e) => node_points_step(m, e),
        XmlEvent::Empty(e) => node_points_step(m, e),
        _ => Some(m),
    }
}

pub open spec fn node_points_step(
    m: Map<Seq<char>, (Seq<char>, Seq<char>)>,
    e: Element,
) -> Option<Map<Seq<char>, (Seq<char>, Seq<char>)>> {
    if e.name@ != "node"@ {
        Some(m)
    } else if !coordinates_well_formed(e.attrs@) {
        None
    } else {
        match node_point(e.attrs@) {
            Some((id, lat, lon)) => Some(m.insert(id, (lat, lon))),
            None => Some(m),
        }
    }
}

/// The point index after a run of events, or `None` after the first bad coordinate.
pub open spec fn points_pass(evs: Seq<XmlEvent>) -> Option<Map<Seq<char>, (Seq<char>, Seq<char>)>>
    decreases evs.len(),
{
    if evs.len() == 0 {
        Some(Map::empty())
    } else {
        match points_pass(evs.drop_last()) {
            Some(m) => points_step(m, evs.last()),
            None => None,
        }
    }
}

/// Adds the point of a node element, if it carries one, to the point index.
pub fn add_node_point(points: &mut StringHashMap<Coordinate>, ev: &XmlEvent) -> (r: Result<(), FeatureError>)
    ensures
        match points_step(point_map(old(points)@), *ev) {
            Some(m) => r.is_ok() && point_map(final(points)@) == m,
            None => r.is_err(),
        },
{
    let e = match ev {
        XmlEvent::Start(e) => e,
        XmlEvent::Empty(e) => e,
        _ => {
            return Ok(());
        },
    };
    if !same_text(e.name.as_str(), "node") {
        return Ok(());
    }
    match get_node_point(e) {
        Ok(Some((id, c))) => {
            let ghost before = points@;
            let ghost k = id@;
            let ghost cv = c;
            points.insert(id, c);
            assert(point_map(points@) =~= point_map(before).insert(k, coord_of(cv)));
            Ok(())
        },
        Ok(None) => Ok(()),
        Err(err) => Err(err),
    }
}

/// Builds the point index from a whole event run.
pub fn get_nodepoints(events: &Vec<XmlEvent>) -> (r: Result<StringHashMap<Coordinate>, FeatureError>)
    ensures
        match points_pass(events@) {
            Some(m) => r.is_ok() && point_map(r.unwrap()@) == m,
            None => r.is_err(),
        },
{
    let mut points: StringHashMap<Coordinate> = StringHashMap::new();
    assert(point_map(points@) =~= Map::empty());
    let mut i: usize = 0;
    while i < events.len()
        invariant
            i <= events@.len(),
            points_pass(events@.take(i as int)) == Some(point_map(points@)),
        decreases events@.len() - i,
    {
        assert(events@.take(i as int + 1).drop_last() =~= events@.take(i as int));
        match add_node_point(&mut points, &events[i]) {
            Ok(()) => {},
            Err(err) => {
                assert(events@.take(i as int + 1).last() == events@[i as int]);
                proof {
                    lemma_points_pass_stays_none(events@, i as int + 1);
                }
                return Err(err);
            },
        }
        i = i + 1;
    }
    assert(events@.take(i as int) =~= events@);
    Ok(points)
}

proof fn lemma_points_pass_stays_none(evs: Seq<XmlEvent>, n: int)
    requires
        0 <= n <= evs.len(),
        points_pass(evs.take(n)).is_none(),
    ensures
        points_pass(evs).is_none(),
    decreases evs.len() - n,
{
    if n < evs.len() {
        assert(evs.take(n + 1).drop_last() =~= evs.take(n));
        lemma_points_pass_stays_none(evs, n + 1);
    } else {
        assert(evs.take(n) =~= evs);
    }
}

} // verus!
