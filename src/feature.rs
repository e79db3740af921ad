//! Feature file markup, as a stream of events, and the readers of single
//! elements: tag key/value pairs, attribute lookup and node coordinates.
use vstd::prelude::*;
use vstd::string::*;

verus! {

/// An element's start tag: its name and its attributes in document order.
pub struct Element {
    pub name: String,
    pub attrs: Vec<(String, String)>,
}

/// One event of the feature file's markup stream.
pub enum XmlEvent {
    /// An opening tag `<name ...>`.
    Start(Element),
    /// A self-closing tag `<name .../>`.
    Empty(Element),
    /// A closing tag `</name>`.
    End(String),
    /// End of the stream.
    Eof,
    /// Anything else (text, comments, declarations).
    Other,
}

/// A coordinate as the decimal texts of its latitude and longitude.
pub struct Coordinate {
    pub lat: String,
    pub lon: String,
}

impl Clone for Coordinate {
    fn clone(&self) -> (r: Coordinate)
        ensures
            r.lat@ == self.lat@,
            r.lon@ == self.lon@,
    {
        Coordinate { lat: self.lat.clone(), lon: self.lon.clone() }
    }
}

/// Structural errors in feature data.
#[derive(Debug, PartialEq, Eq, Structural)]
pub enum FeatureError {
    /// A coordinate attribute that is not a decimal number.
    BadCoordinate,
}

/// Compares two texts character by character.
pub fn same_text(a: &str, b: &str) -> (r: bool)
    ensures
        r == (a@ == b@),
{
    let n = a.unicode_len();
    let m = b.unicode_len();
    if n != m {
        return false;
    }
    let mut i: usize = 0;
    while i < n
        invariant
            n == a@.len(),
            m == b@.len(),
            n == m,
            i <= n,
            a@.take(i as int) == b@.take(i as int),
        decreases n - i,
    {
        if a.get_char(i) != b.get_char(i) {
            assert(a@[i as int] != b@[i as int]);
            return false;
        }
        assert(a@.take(i as int + 1) =~= a@.take(i as int).push(a@[i as int]));
        assert(b@.take(i as int + 1) =~= b@.take(i as int).push(b@[i as int]));
        i = i + 1;
    }
    assert(a@.take(n as int) =~= a@);
    assert(b@.take(n as int) =~= b@);
    true
}

/// The element is a top-level feature: a node or a way.
pub open spec fn is_feature_name(name: Seq<char>) -> bool {
    name == "node"@ || name == "way"@
}

/// Index of the first attribute named `key` among `attrs[from..]`.
pub open spec fn first_attr_from(attrs: Seq<(String, String)>, key: Seq<char>, from: int) -> Option<int>
    decreases attrs.len() - from,
{
    if from < 0 || from >= attrs.len() {
        None
    } else if attrs[from].0@ == key {
        Some(from)
    } else {
        first_attr_from(attrs, key, from + 1)
    }
}

/// The value of the first attribute named `key`, if any.
pub open spec fn attr_value(attrs: Seq<(String, String)>, key: Seq<char>) -> Option<Seq<char>> {
    match first_attr_from(attrs, key, 0) {
        Some(i) => Some(attrs[i].1@),
        None => None,
    }
}

/// The value of attribute `key`, or the empty text where it is missing.
pub open spec fn attr_or_empty(attrs: Seq<(String, String)>, key: Seq<char>) -> Seq<char> {
    match attr_value(attrs, key) {
        Some(v) => v,
        None => Seq::empty(),
    }
}

/// The key/value pair of a `<tag k=".." v=".."/>` element; both must be non-empty.
pub open spec fn tag_kv(attrs: Seq<(String, String)>) -> Option<(Seq<char>, Seq<char>)> {
    let k = attr_or_empty(attrs, "k"@);
    let v = attr_or_empty(attrs, "v"@);
    if k.len() == 0 || v.len() == 0 {
        None
    } else {
        Some((k, v))
    }
}

/// Looks up the first attribute named `key`.
pub fn get_xml_attr(e: &Element, key: &str) -> (r: Option<String>)
    ensures
        match r {
            Some(v) => attr_value(e.attrs@, key@) == Some(v@),
            None => attr_value(e.attrs@, key@).is_none(),
        },
{
    let n = e.attrs.len();
    let mut i: usize = 0;
    while i < n
        invariant
            n == e.attrs@.len(),
            i <= n,
            first_attr_from(e.attrs@, key@, 0) == first_attr_from(e.attrs@, key@, i as int),
        decreases n - i,
    {
        if same_text(e.attrs[i].0.as_str(), key) {
            return Some(e.attrs[i].1.clone());
        }
        i = i + 1;
    }
    None
}

/// Reads the key and value of a tag element; `None` when either is missing or empty.
pub fn get_tag_kv(e: &Element) -> (r: Option<(String, String)>)
    ensures
        match r {
            Some((k, v)) => tag_kv(e.attrs@) == Some((k@, v@)),
            None => tag_kv(e.attrs@).is_none(),
        },
{
    let k = get_xml_attr(e, "k");
    let v = get_xml_attr(e, "v");
    match (k, v) {
        (Some(k), Some(v)) => {
            if k.unicode_len() == 0 || v.unicode_len() == 0 {
                None
            } else {
                Some((k, v))
            }
        },
        _ => None,
    }
}

pub open spec fn is_digit(c: char) -> bool {
    '0' <= c && c <= '9'
}

/// The text after an optional leading sign.
pub open spec fn unsigned_part(s: Seq<char>) -> Seq<char> {
    if s.len() > 0 && (s[0] == '-' || s[0] == '+') {
        s.drop_first()
    } else {
        s
    }
}

/// A decimal number: an optional sign, digits with at most one point, and at least one digit.
pub open spec fn is_decimal(s: Seq<char>) -> bool {
    let b = unsigned_part(s);
    &&& forall|i: int| 0 <= i < b.len() ==> is_digit(#[trigger] b[i]) || b[i] == '.'
    &&& forall|i: int, j: int| 0 <= i < b.len() && 0 <= j < b.len() && b[i] == '.' && b[j] == '.' ==> i == j
    &&& exists|i: int| 0 <= i < b.len() && is_digit(#[trigger] b[i])
}

/// A decimal number whose digits are all zero.
pub open spec fn is_zero_decimal(s: Seq<char>) -> bool {
    &&& is_decimal(s)
    &&& forall|i: int| 0 <= i < unsigned_part(s).len() ==> #[trigger] unsigned_part(s)[i] != '.' ==> unsigned_part(s)[i] == '0'
}

/// Classifies a coordinate text: `None` when it is no decimal number,
/// else whether it denotes zero.
pub fn decimal_zero(s: &str) -> (r: Option<bool>)
    ensures
        r.is_some() == is_decimal(s@),
        r == Some(true) <==> is_zero_decimal(s@),
{
    let n = s.unicode_len();
    let mut start: usize = 0;
    if n > 0 {
        let c0 = s.get_char(0);
        if c0 == '-' || c0 == '+' {
            start = 1;
        }
    }
    let ghost b = unsigned_part(s@);
    assert(b =~= s@.subrange(start as int, n as int));
    let mut i: usize = start;
    let mut points: usize = 0;
    let mut point_at: usize = 0;
    let mut digits: bool = false;
    let mut zero: bool = true;
    while i < n
        invariant
            n == s@.len(),
            start <= i <= n,
            start <= 1,
            b == s@.subrange(start as int, n as int),
            b == unsigned_part(s@),
            forall|j: int| start <= j < i ==> is_digit(#[trigger] s@[j]) || s@[j] == '.',
            points <= 1,
            points == 0 ==> forall|j: int| start <= j < i ==> #[trigger] s@[j] != '.',
            points == 1 ==> start <= point_at < i && s@[point_at as int] == '.'
                && forall|j: int| start <= j < i && #[trigger] s@[j] == '.' ==> j == point_at,
            digits <==> exists|j: int| start <= j < i && is_digit(#[trigger] s@[j]),
            zero <==> forall|j: int| start <= j < i ==> #[trigger] s@[j] != '.' ==> s@[j] == '0',
        decreases n - i,
    {
        let c = s.get_char(i);
        if c == '.' {
            if points == 1 {
                assert(b[point_at - start] == '.' && b[i - start] == '.');
                return None;
            }
            points = 1;
            point_at = i;
        } else if '0' <= c && c <= '9' {
            digits = true;
            if c != '0' {
                zero = false;
            }
        } else {
            assert(b[i - start] == s@[i as int]);
            assert(!(is_digit(b[i - start]) || b[i - start] == '.'));
            return None;
        }
        i = i + 1;
    }
    assert forall|j: int| 0 <= j < b.len() implies is_digit(#[trigger] b[j]) || b[j] == '.' by {
        assert(b[j] == s@[j + start]);
    }
    assert forall|j: int, k: int| 0 <= j < b.len() && 0 <= k < b.len() && b[j] == '.' && b[k] == '.' implies j == k by {
        assert(b[j] == s@[j + start]);
        assert(b[k] == s@[k + start]);
    }
    if !digits {
        assert forall|j: int| 0 <= j < b.len() implies !is_digit(#[trigger] b[j]) by {
            assert(b[j] == s@[j + start]);
        }
        return None;
    }
    proof {
        let jd = choose|j: int| start <= j < n && is_digit(#[trigger] s@[j]);
        assert(is_digit(b[jd - start]));
    }
    if zero {
        assert forall|j: int| 0 <= j < b.len() && #[trigger] b[j] != '.' implies b[j] == '0' by {
            assert(b[j] == s@[j + start]);
        }
    } else {
        proof {
            let jz = choose|j: int| start <= j < n && #[trigger] s@[j] != '.' && s@[j] != '0';
            assert(b[jz - start] != '.' && b[jz - start] != '0');
        }
    }
    Some(zero)
}

/// The point a node element carries: its id and coordinate, where the id is
/// present and the coordinate is not the (0, 0) "no data" mark.
/// A missing coordinate attribute reads as zero.
pub open spec fn node_point(attrs: Seq<(String, String)>) -> Option<(Seq<char>, Seq<char>, Seq<char>)> {
    let id = attr_or_empty(attrs, "id"@);
    let lat = coordinate_text(attrs, "lat"@);
    let lon = coordinate_text(attrs, "lon"@);
    let lat_zero = attr_value(attrs, "lat"@).is_none() || is_zero_decimal(lat);
    let lon_zero = attr_value(attrs, "lon"@).is_none() || is_zero_decimal(lon);
    if id.len() == 0 || (lat_zero && lon_zero) {
        None
    } else {
        Some((id, lat, lon))
    }
}

/// The text of a coordinate attribute, `"0"` where it is missing.
pub open spec fn coordinate_text(attrs: Seq<(String, String)>, key: Seq<char>) -> Seq<char> {
    match attr_value(attrs, key) {
        Some(v) => v,
        None => "0"@,
    }
}

/// Every present coordinate attribute is a decimal number.
pub open spec fn coordinates_well_formed(attrs: Seq<(String, String)>) -> bool {
    let lat = attr_value(attrs, "lat"@);
    let lon = attr_value(attrs, "lon"@);
    (lat.is_none() || is_decimal(lat.unwrap())) && (lon.is_none() || is_decimal(lon.unwrap()))
}

fn coordinate_text_zero(t: &Option<String>) -> (r: Result<bool, FeatureError>)
    ensures
        match t {
            Some(s) => match r {
                Ok(z) => is_decimal(s@) && z == is_zero_decimal(s@),
                Err(_) => !is_decimal(s@),
            },
            None => r == Ok::<bool, FeatureError>(true),
        },
{
    match t {
        Some(s) => match decimal_zero(s.as_str()) {
            Some(z) => Ok(z),
            None => Err(FeatureError::BadCoordinate),
        },
        None => Ok(true),
    }
}

/// Reads a node element's id and coordinate. A coordinate attribute that is
/// present but not a decimal number is an error.
pub fn get_node_point(e: &Element) -> (r: Result<Option<(String, Coordinate)>, FeatureError>)
    ensures
        r.is_ok() == coordinates_well_formed(e.attrs@),
        r.is_ok() ==> match r.unwrap() {
            Some((id, c)) => node_point(e.attrs@) == Some((id@, c.lat@, c.lon@)),
            None => node_point(e.attrs@).is_none(),
        },
{
    let id = get_xml_attr(e, "id");
    let lat = get_xml_attr(e, "lat");
    let lon = get_xml_attr(e, "lon");
    let lat_zero = coordinate_text_zero(&lat);
    let lon_zero = coordinate_text_zero(&lon);
    let lat_zero = match lat_zero {
        Ok(z) => z,
        Err(err) => {
            return Err(err);
        },
    };
    let lon_zero = match lon_zero {
        Ok(z) => z,
        Err(err) => {
            return Err(err);
        },
    };
    let id = match id {
        Some(id) => id,
        None => String::new(),
    };
    let lat = match lat {
        Some(v) => v,
        None => String::from_str("0"),
    };
    let lon = match lon {
        Some(v) => v,
        None => String::from_str("0"),
    };
    if id.unicode_len() == 0 || (lat_zero && lon_zero) {
        Ok(None)
    } else {
        Ok(Some((id, Coordinate { lat, lon })))
    }
}

} // verus!
