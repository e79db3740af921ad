//! Transaction rows: their join key, their projection to named fields, the
//! postcode check against the nearest reference points, and the assembly of
//! one matched record.
use vstd::prelude::*;
use vstd::string::*;
use crate::feature::{Coordinate, is_digit, same_text};
use crate::materialize::{pairs_view, coords_view, texts_view};
use crate::normalize::{address_key, norm_houseid};

verus! {

/// The number of columns of a transaction row.
pub const ROW_COLUMNS: usize = 16;

/// Why a transaction row cannot be used.
#[derive(Debug, PartialEq, Eq, Structural)]
pub enum RowError {
    /// The row has fewer columns than the schema.
    TooFewColumns,
    /// The price column is not a whole number.
    BadPrice,
}

/// One matched building: its attributes, later pairs overriding earlier ones
/// on the same key, and its coordinates in order.
pub struct House {
    pub attrs: Vec<(String, String)>,
    pub nodes: Vec<Coordinate>,
}

/// The mapping that a list of pairs stands for; a later pair overrides an earlier one.
pub open spec fn attr_map(pairs: Seq<(Seq<char>, Seq<char>)>) -> Map<Seq<char>, Seq<char>>
    decreases pairs.len(),
{
    if pairs.len() == 0 {
        Map::empty()
    } else {
        attr_map(pairs.drop_last()).insert(pairs.last().0, pairs.last().1)
    }
}

/// Placing transaction pairs after feature pairs is the overlay merge:
/// every key of either side is present and the transaction value wins.
pub proof fn lemma_overlay_wins(base: Seq<(Seq<char>, Seq<char>)>, top: Seq<(Seq<char>, Seq<char>)>)
    ensures
        attr_map(base + top) == attr_map(base).union_prefer_right(attr_map(top)),
    decreases top.len(),
{
    if top.len() == 0 {
        assert(base + top =~= base);
        assert(attr_map(base).union_prefer_right(Map::empty()) =~= attr_map(base));
    } else {
        assert((base + top).drop_last() =~= base + top.drop_last());
        lemma_overlay_wins(base, top.drop_last());
        assert(attr_map(base + top) =~= attr_map(base).union_prefer_right(attr_map(top)));
    }
}

/// The decoded property type.
pub open spec fn property_type_name(c: Seq<char>) -> Seq<char> {
    if c == "D"@ {
        "Detached"@
    } else if c == "S"@ {
        "Semi-Detached"@
    } else if c == "T"@ {
        "Terraced"@
    } else if c == "F"@ {
        "Flat / Maisonette"@
    } else if c == "O"@ {
        "Other"@
    } else {
        c
    }
}

/// `"Yes"` where the code is `flag`, else `"No"`.
pub open spec fn yes_no(c: Seq<char>, flag: Seq<char>) -> Seq<char> {
    if c == flag {
        "Yes"@
    } else {
        "No"@
    }
}

/// A price: one or more ASCII digits.
pub open spec fn is_price(s: Seq<char>) -> bool {
    s.len() > 0 && forall|i: int| 0 <= i < s.len() ==> is_digit(#[trigger] s[i])
}

/// The named fields of a transaction row, in column order.
pub open spec fn row_attrs(r: Seq<Seq<char>>) -> Seq<(Seq<char>, Seq<char>)> {
    seq![
        ("price_paid"@, r[1]),
        ("transaction_at"@, r[2]),
        ("addr:postcode"@, r[3]),
        ("property_type"@, property_type_name(r[4])),
        ("new_build"@, yes_no(r[5], "Y"@)),
        ("freehold"@, yes_no(r[6], "F"@)),
        ("addr:secondary"@, r[8]),
        ("addr:locality"@, r[10]),
        ("addr:city"@, r[11]),
        ("addr:district"@, r[12]),
        ("addr:county"@, r[13]),
    ]
}

/// The postcode is one of the nearest reference postcodes.
pub open spec fn among(nearest: Seq<Seq<char>>, claimed: Seq<char>) -> bool {
    exists|i: int| 0 <= i < nearest.len() && #[trigger] nearest[i] == claimed
}

/// The join key of a transaction row: its street (column 9) and its house
/// identifier (column 7), normalized.
pub fn get_row_key(row: &Vec<String>) -> (r: Result<String, RowError>)
    ensures
        row@.len() < ROW_COLUMNS <==> r == Err::<String, RowError>(RowError::TooFewColumns),
        row@.len() >= ROW_COLUMNS <==> r.is_ok(),
        r.is_ok() ==> r.unwrap()@ == address_key(row@[9]@, row@[7]@),
{
    if row.len() < ROW_COLUMNS {
        return Err(RowError::TooFewColumns);
    }
    Ok(norm_houseid(row[9].as_str(), row[7].as_str()))
}

/// Whether a text is a price.
pub fn is_price_exec(s: &str) -> (r: bool)
    ensures
        r == is_price(s@),
{
    let n = s.unicode_len();
    if n == 0 {
        return false;
    }
    let mut i: usize = 0;
    while i < n
        invariant
            n == s@.len(),
            i <= n,
            forall|j: int| 0 <= j < i ==> is_digit(#[trigger] s@[j]),
        decreases n - i,
    {
        let c = s.get_char(i);
        if !('0' <= c && c <= '9') {
            return false;
        }
        i = i + 1;
    }
    true
}

fn text(s: &str) -> (r: String)
    ensures
        r@ == s@,
{
    String::from_str(s)
}

fn decode_property_type(c: &str) -> (r: String)
    ensures
        r@ == property_type_name(c@),
{
    if same_text(c, "D") {
        text("Detached")
    } else if same_text(c, "S") {
        text("Semi-Detached")
    } else if same_text(c, "T") {
        text("Terraced")
    } else if same_text(c, "F") {
        text("Flat / Maisonette")
    } else if same_text(c, "O") {
        text("Other")
    } else {
        text(c)
    }
}

fn decode_yes_no(c: &str, flag: &str) -> (r: String)
    ensures
        r@ == yes_no(c@, flag@),
{
    if same_text(c, flag) {
        text("Yes")
    } else {
        text("No")
    }
}

/// Projects a transaction row to its named fields; the record id, the
/// identifier and street columns and the trailing codes are left out.
pub fn csv_record_to_attrs(row: &Vec<String>) -> (r: Result<Vec<(String, String)>, RowError>)
    ensures
        row@.len() < ROW_COLUMNS ==> r == Err::<Vec<(String, String)>, RowError>(RowError::TooFewColumns),
        row@.len() >= ROW_COLUMNS && !is_price(row@[1]@) ==> r == Err::<Vec<(String, String)>, RowError>(
            RowError::BadPrice,
        ),
        row@.len() >= ROW_COLUMNS && is_price(row@[1]@) ==> r.is_ok() && pairs_view(r.unwrap()@) == row_attrs(
            texts_view(row@),
        ),
{
    if row.len() < ROW_COLUMNS {
        return Err(RowError::TooFewColumns);
    }
    if !is_price_exec(row[1].as_str()) {
        return Err(RowError::BadPrice);
    }
    let mut out: Vec<(String, String)> = Vec::new();
    out.push((text("price_paid"), text(row[1].as_str())));
    out.push((text("transaction_at"), text(row[2].as_str())));
    out.push((text("addr:postcode"), text(row[3].as_str())));
    out.push((text("property_type"), decode_property_type(row[4].as_str())));
    out.push((text("new_build"), decode_yes_no(row[5].as_str(), "Y")));
    out.push((text("freehold"), decode_yes_no(row[6].as_str(), "F")));
    out.push((text("addr:secondary"), text(row[8].as_str())));
    out.push((text("addr:locality"), text(row[10].as_str())));
    out.push((text("addr:city"), text(row[11].as_str())));
    out.push((text("addr:district"), text(row[12].as_str())));
    out.push((text("addr:county"), text(row[13].as_str())));
    assert(pairs_view(out@) =~= row_attrs(texts_view(row@)));
    Ok(out)
}

/// Whether the claimed postcode is among the nearest reference postcodes.
pub fn postcode_among(nearest: &Vec<String>, claimed: &str) -> (r: bool)
    ensures
        r == among(texts_view(nearest@), claimed@),
{
    let mut i: usize = 0;
    while i < nearest.len()
        invariant
            i <= nearest@.len(),
            forall|j: int| 0 <= j < i ==> nearest@[j]@ != claimed@,
        decreases nearest@.len() - i,
    {
        if same_text(nearest[i].as_str(), claimed) {
            assert(texts_view(nearest@)[i as int] == claimed@);
            return true;
        }
        i = i + 1;
    }
    assert forall|j: int| 0 <= j < texts_view(nearest@).len() implies #[trigger] texts_view(nearest@)[j] != claimed@ by {
        assert(texts_view(nearest@)[j] == nearest@[j]@);
    }
    false
}

/// Assembles the record of a join hit: it is kept only where the building
/// has at least one coordinate and the row's
/// postcode (column 3) is among the postcodes nearest to the building, and
/// its attributes are the feature's followed by the row's, so that the row's
/// values win on a shared key.
pub fn assemble_house(
    feature_attrs: Vec<(String, String)>,
    nodes: Vec<Coordinate>,
    row: &Vec<String>,
    nearest: &Vec<String>,
) -> (r: Result<Option<House>, RowError>)
    ensures
        nodes@.len() == 0 ==> r == Ok::<Option<House>, RowError>(None),
        nodes@.len() > 0 && row@.len() < ROW_COLUMNS ==> r == Err::<Option<House>, RowError>(RowError::TooFewColumns),
        nodes@.len() > 0 && row@.len() >= ROW_COLUMNS && !among(texts_view(nearest@), row@[3]@) ==> r == Ok::<
            Option<House>,
            RowError,
        >(None),
        nodes@.len() > 0 && row@.len() >= ROW_COLUMNS && among(texts_view(nearest@), row@[3]@) && !is_price(row@[1]@) ==> r
            == Err::<Option<House>, RowError>(RowError::BadPrice),
        nodes@.len() > 0 && row@.len() >= ROW_COLUMNS && among(texts_view(nearest@), row@[3]@) && is_price(row@[1]@) ==> ({
            &&& r.is_ok()
            &&& r.unwrap().is_some()
            &&& pairs_view(r.unwrap().unwrap().attrs@) == pairs_view(feature_attrs@) + row_attrs(
                texts_view(row@),
            )
            &&& coords_view(r.unwrap().unwrap().nodes@) == coords_view(nodes@)
        }),
{
    if nodes.len() == 0 {
        return Ok(None);
    }
    if row.len() < ROW_COLUMNS {
        return Err(RowError::TooFewColumns);
    }
    if !postcode_among(nearest, row[3].as_str()) {
        return Ok(None);
    }
    let row_pairs = match csv_record_to_attrs(row) {
        Ok(p) => p,
        Err(err) => {
            return Err(err);
        },
    };
    let mut attrs = feature_attrs;
    let ghost base = attrs@;
    let mut i: usize = 0;
    while i < row_pairs.len()
        invariant
            i <= row_pairs@.len(),
            pairs_view(attrs@) == pairs_view(base) + pairs_view(row_pairs@.take(i as int)),
        decreases row_pairs@.len() - i,
    {
        let ghost before = attrs@;
        let k = text(row_pairs[i].0.as_str());
        let v = text(row_pairs[i].1.as_str());
        attrs.push((k, v));
        assert(pairs_view(row_pairs@.take(i as int + 1)) =~= pairs_view(row_pairs@.take(i as int)).push(
            (row_pairs@[i as int].0@, row_pairs@[i as int].1@),
        ));
        assert(pairs_view(attrs@) =~= pairs_view(before).push((k@, v@)));
        i = i + 1;
    }
    assert(row_pairs@.take(i as int) =~= row_pairs@);
    Ok(Some(House { attrs, nodes }))
}

} // verus!
