//! Zone remapping and the permutation parser.
//!
//! A permutation of the zone indices maps physical zones (as the device
//! reports them) to logical zones (as all output-facing behavior uses
//! them): the logical zone is the position at which the physical zone
//! appears in the permutation. A companion parser validates a user-supplied
//! comma-separated permutation string.

use vstd::prelude::*;
use vstd::string::StringSliceAdditionalSpecFns;

verus! {

/// ASCII code of the field separator.
pub const ASCII_COMMA: u8 = 44;

/// Index of the first comma in `s`, or `s.len()` if there is none.
pub open spec fn first_comma(s: Seq<u8>) -> int
    decreases s.len(),
{
    if s.len() == 0 {
        0
    } else if s[0] == ASCII_COMMA {
        0
    } else {
        1 + first_comma(s.drop_first())
    }
}

/// `first_comma` finds exactly the position with no comma before it and a
/// comma (or the end) at it.
pub proof fn lemma_first_comma_is(s: Seq<u8>, j: int)
    requires
        0 <= j <= s.len(),
        forall|k: int| 0 <= k < j ==> s[k] != ASCII_COMMA,
        j == s.len() || s[j] == ASCII_COMMA,
    ensures
        first_comma(s) == j,
    decreases s.len(),
{
    if s.len() != 0 && s[0] != ASCII_COMMA {
        lemma_first_comma_is(s.drop_first(), j - 1);
    }
}

/// The fields of `s`, split on commas; one field more than there are
/// commas, so never empty.
pub open spec fn spec_split_commas(s: Seq<u8>) -> Seq<Seq<u8>>
    decreases s.len(),
{
    let i = first_comma(s);
    if 0 <= i < s.len() {
        seq![s.subrange(0, i)] + spec_split_commas(s.subrange(i + 1, s.len() as int))
    } else {
        seq![s]
    }
}

/// Splits a byte string on commas.
fn split_commas(bytes: &[u8]) -> (fields: Vec<Vec<u8>>)
    ensures
        fields.deep_view() =~~= spec_split_commas(bytes@),
{
    let n = bytes.len();
    let mut fields: Vec<Vec<u8>> = Vec::new();
    let mut pos: usize = 0;
    proof {
        assert(bytes@.subrange(0, n as int) =~= bytes@);
        assert(fields.deep_view() =~~= Seq::<Seq<u8>>::empty());
    }
    loop
        invariant_except_break
            pos <= n,
            n == bytes@.len(),
            spec_split_commas(bytes@) =~~= fields.deep_view() + spec_split_commas(
                bytes@.subrange(pos as int, n as int),
            ),
        ensures
            fields.deep_view() =~~= spec_split_commas(bytes@),
        decreases n - pos,
    {
        let ghost suffix = bytes@.subrange(pos as int, n as int);
        let mut j = pos;
        while j < n && bytes[j] != ASCII_COMMA
            invariant
                pos <= j <= n,
                n == bytes@.len(),
                forall|k: int| pos <= k < j ==> bytes@[k] != ASCII_COMMA,
            decreases n - j,
        {
            j = j + 1;
        }
        proof {
            lemma_first_comma_is(suffix, j - pos);
        }
        let field_slice = vstd::slice::slice_subrange(bytes, pos, j);
        let field = vstd::slice::slice_to_vec(field_slice);
        let ghost pre = fields.deep_view();
        fields.push(field);
        proof {
            assert(fields.deep_view() =~~= pre + seq![field@]);
        }
        if j == n {
            proof {
                assert(first_comma(suffix) == suffix.len());
                assert(spec_split_commas(suffix) =~= seq![suffix]);
                assert(field@ =~= suffix);
            }
            break;
        }
        proof {
            let rest = bytes@.subrange(j + 1, n as int);
            assert(suffix.subrange(0, (j - pos) as int) =~= field@);
            assert(suffix.subrange((j - pos) as int + 1, suffix.len() as int) =~= rest);
            assert(spec_split_commas(suffix) =~= seq![field@] + spec_split_commas(rest));
        }
        pos = j + 1;
    }
    fields
}

/// ASCII whitespace, as the parser trims it around each field.
pub open spec fn is_ascii_ws(b: u8) -> bool {
    b == 32 || 9 <= b <= 13
}

/// An ASCII decimal digit.
pub open spec fn is_ascii_digit(b: u8) -> bool {
    48 <= b <= 57
}

/// `s` without leading ASCII whitespace.
pub open spec fn spec_trim_front(s: Seq<u8>) -> Seq<u8>
    decreases s.len(),
{
    if s.len() > 0 && is_ascii_ws(s[0]) {
        spec_trim_front(s.drop_first())
    } else {
        s
    }
}

/// `s` without trailing ASCII whitespace.
pub open spec fn spec_trim_back(s: Seq<u8>) -> Seq<u8>
    decreases s.len(),
{
    if s.len() > 0 && is_ascii_ws(s.last()) {
        spec_trim_back(s.drop_last())
    } else {
        s
    }
}

/// `s` without leading or trailing ASCII whitespace.
pub open spec fn spec_trim(s: Seq<u8>) -> Seq<u8> {
    spec_trim_back(spec_trim_front(s))
}

/// Every byte of `s` is a decimal digit.
pub open spec fn all_digits(s: Seq<u8>) -> bool {
    forall|i: int| 0 <= i < s.len() ==> is_ascii_digit(s[i])
}

/// The number a string of decimal digits denotes, most significant first.
pub open spec fn digits_value(s: Seq<u8>) -> int
    decreases s.len(),
{
    if s.len() == 0 {
        0
    } else {
        10 * digits_value(s.drop_last()) + (s.last() - 48)
    }
}

/// A digit string denotes a nonnegative number.
pub proof fn lemma_digits_value_nonneg(s: Seq<u8>)
    requires
        all_digits(s),
    ensures
        digits_value(s) >= 0,
    decreases s.len(),
{
    if s.len() > 0 {
        lemma_digits_value_nonneg(s.drop_last());
    }
}

/// Dropping trailing digits never increases the denoted number.
pub proof fn lemma_digits_value_prefix_le(s: Seq<u8>, j: int)
    requires
        all_digits(s),
        0 <= j <= s.len(),
    ensures
        digits_value(s.subrange(0, j)) <= digits_value(s),
    decreases s.len(),
{
    if j == s.len() {
        assert(s.subrange(0, j) =~= s);
    } else {
        assert(s.drop_last().subrange(0, j) =~= s.subrange(0, j));
        lemma_digits_value_prefix_le(s.drop_last(), j);
        lemma_digits_value_nonneg(s.drop_last());
    }
}

/// The number a field denotes: the field is trimmed of surrounding ASCII
/// whitespace and must then be a nonempty string of decimal digits whose
/// value fits the platform's word.
pub open spec fn spec_parse_field(s: Seq<u8>) -> Option<int> {
    let t = spec_trim(s);
    if t.len() > 0 && all_digits(t) && digits_value(t) <= usize::MAX {
        Some(digits_value(t))
    } else {
        None
    }
}

/// Parses one comma-separated field as an unsigned zone number.
fn parse_field(field: &Vec<u8>) -> (r: Option<usize>)
    ensures
        r matches Some(v) ==> spec_parse_field(field@) == Some(v as int),
        r is None ==> spec_parse_field(field@) is None,
{
    let n = field.len();
    let mut start: usize = 0;
    proof {
        assert(field@.subrange(0, n as int) =~= field@);
    }
    while start < n && (field[start] == 32 || (9 <= field[start] && field[start] <= 13))
        invariant
            start <= n,
            n == field@.len(),
            spec_trim_front(field@) == spec_trim_front(field@.subrange(start as int, n as int)),
        decreases n - start,
    {
        proof {
            assert(field@.subrange(start as int, n as int).drop_first() =~= field@.subrange(
                start + 1,
                n as int,
            ));
        }
        start = start + 1;
    }
    let ghost front = field@.subrange(start as int, n as int);
    proof {
        assert(spec_trim_front(field@) == front);
    }
    let mut end: usize = n;
    while end > start && (field[end - 1] == 32 || (9 <= field[end - 1] && field[end - 1] <= 13))
        invariant
            start <= end <= n,
            n == field@.len(),
            spec_trim_back(front) == spec_trim_back(field@.subrange(start as int, end as int)),
        decreases end,
    {
        proof {
            assert(field@.subrange(start as int, end as int).drop_last() =~= field@.subrange(
                start as int,
                end - 1,
            ));
        }
        end = end - 1;
    }
    let ghost t = field@.subrange(start as int, end as int);
    proof {
        assert(spec_trim(field@) == t);
    }
    if start == end {
        return None;
    }
    let mut value: usize = 0;
    let mut i = start;
    proof {
        assert(field@.subrange(start as int, start as int) =~= Seq::<u8>::empty());
    }
    while i < end
        invariant
            start <= i <= end <= n,
            n == field@.len(),
            t == field@.subrange(start as int, end as int),
            t == spec_trim(field@),
            forall|k: int| start <= k < i ==> is_ascii_digit(field@[k]),
            value == digits_value(field@.subrange(start as int, i as int)),
        decreases end - i,
    {
        let b = field[i];
        if !(48 <= b && b <= 57) {
            proof {
                assert(0 <= i - start < t.len());
                assert(t[i - start] == b);
                assert(!is_ascii_digit(t[i - start]));
                assert(!all_digits(t));
            }
            return None;
        }
        let d = (b - 48) as usize;
        proof {
            assert(field@.subrange(start as int, i + 1).drop_last() =~= field@.subrange(
                start as int,
                i as int,
            ));
        }
        let next = match value.checked_mul(10) {
            Some(v10) => v10.checked_add(d),
            None => None,
        };
        value = match next {
            Some(v) => v,
            None => {
                proof {
                    if all_digits(t) {
                        assert(t.subrange(0, i + 1 - start) =~= field@.subrange(
                            start as int,
                            i + 1,
                        ));
                        assert(digits_value(field@.subrange(start as int, i + 1)) == 10 * value + (
                        b - 48));
                        lemma_digits_value_prefix_le(t, i + 1 - start);
                        assert(digits_value(t) > usize::MAX);
                    }
                }
                return None;
            },
        };
        i = i + 1;
    }
    proof {
        assert(forall|k: int| 0 <= k < t.len() ==> is_ascii_digit(t[k]));
    }
    Some(value)
}

/// What was wrong with a permutation string.
#[derive(Debug, Clone, Copy, PartialEq, Eq)]
pub enum ZoneMapIssue {
    /// The element count differs from the zone count.
    WrongCount,
    /// An element is not a plain decimal number.
    NotANumber,
    /// An element names a zone at or beyond the zone count.
    OutOfRange,
    /// An element repeats.
    Duplicate,
}

/// Why a permutation string was rejected.
#[derive(Debug, Clone, Copy, PartialEq, Eq)]
pub enum ZoneMapError {
    InvalidZoneMap(ZoneMapIssue),
}

/// Folds the split fields left to right onto `acc`: the first offending
/// field decides the error, otherwise each zone number joins the map.
pub open spec fn spec_parse_fields(
    fields: Seq<Seq<u8>>,
    num_zones: int,
    acc: Seq<usize>,
) -> Result<Seq<usize>, ZoneMapError>
    decreases fields.len(),
{
    if fields.len() == 0 {
        Ok(acc)
    } else {
        match spec_parse_field(fields[0]) {
            None => Err(ZoneMapError::InvalidZoneMap(ZoneMapIssue::NotANumber)),
            Some(v) => {
                if v >= num_zones {
                    Err(ZoneMapError::InvalidZoneMap(ZoneMapIssue::OutOfRange))
                } else if acc.contains(v as usize) {
                    Err(ZoneMapError::InvalidZoneMap(ZoneMapIssue::Duplicate))
                } else {
                    spec_parse_fields(fields.drop_first(), num_zones, acc.push(v as usize))
                }
            },
        }
    }
}

/// What parsing a permutation string yields: the comma-separated fields
/// must number exactly `num_zones` and each must be a distinct in-range
/// zone number.
pub open spec fn spec_parse_zone_map(s: Seq<u8>, num_zones: int) -> Result<
    Seq<usize>,
    ZoneMapError,
> {
    let fields = spec_split_commas(s);
    if fields.len() != num_zones {
        Err(ZoneMapError::InvalidZoneMap(ZoneMapIssue::WrongCount))
    } else {
        spec_parse_fields(fields, num_zones, Seq::empty())
    }
}

/// Parses a user-supplied comma-separated permutation string into a zone
/// map of `num_zones` distinct zone numbers, exactly per
/// [`spec_parse_zone_map`]: rejected when the element count is wrong, an
/// element fails to parse as a decimal number, an element is out of range,
/// or an element repeats.
pub fn parse_zone_map(map_str: &str, num_zones: usize) -> (r: Result<Vec<usize>, ZoneMapError>)
    ensures
        (match (r, spec_parse_zone_map(map_str.spec_bytes(), num_zones as int)) {
            (Ok(v), Ok(sv)) => v@ == sv,
            (Err(e), Err(se)) => e == se,
            _ => false,
        }),
{
    let bytes = map_str.as_bytes();
    let ghost sbytes = map_str.spec_bytes();
    let fields = split_commas(bytes);
    let ghost all = fields.deep_view();
    if fields.len() != num_zones {
        return Err(ZoneMapError::InvalidZoneMap(ZoneMapIssue::WrongCount));
    }
    let mut used: Vec<bool> = Vec::new();
    let mut z: usize = 0;
    while z < num_zones
        invariant
            used@.len() == z <= num_zones,
            forall|k: int| 0 <= k < z ==> !used@[k],
        decreases num_zones - z,
    {
        used.push(false);
        z = z + 1;
    }
    let mut zone_map: Vec<usize> = Vec::new();
    let mut i: usize = 0;
    proof {
        assert(all.subrange(0, num_zones as int) =~~= all);
    }
    while i < num_zones
        invariant
            i <= num_zones,
            sbytes == map_str.spec_bytes(),
            all == fields.deep_view(),
            all.len() == num_zones,
            fields@.len() == num_zones,
            spec_parse_zone_map(sbytes, num_zones as int) == spec_parse_fields(
                all.subrange(i as int, num_zones as int),
                num_zones as int,
                zone_map@,
            ),
            zone_map@.len() == i,
            used@.len() == num_zones,
            forall|k: int| 0 <= k < i ==> zone_map@[k] < num_zones,
            forall|y: int| 0 <= y < num_zones ==> (used@[y] <==> zone_map@.contains(y as usize)),
        decreases num_zones - i,
    {
        let ghost suffix = all.subrange(i as int, num_zones as int);
        proof {
            assert(fields@[i as int].deep_view() =~= fields@[i as int]@);
            assert(suffix[0] == fields@[i as int]@);
            assert(suffix.drop_first() =~~= all.subrange(i + 1, num_zones as int));
        }
        let v = match parse_field(&fields[i]) {
            None => {
                proof {
                    assert(spec_parse_field(suffix[0]) is None);
                    assert(spec_parse_fields(suffix, num_zones as int, zone_map@) == Err::<
                        Seq<usize>,
                        ZoneMapError,
                    >(ZoneMapError::InvalidZoneMap(ZoneMapIssue::NotANumber)));
                }
                return Err(ZoneMapError::InvalidZoneMap(ZoneMapIssue::NotANumber));
            },
            Some(v) => v,
        };
        if v >= num_zones {
            proof {
                assert(spec_parse_field(suffix[0]) == Some(v as int));
                assert(spec_parse_fields(suffix, num_zones as int, zone_map@) == Err::<
                    Seq<usize>,
                    ZoneMapError,
                >(ZoneMapError::InvalidZoneMap(ZoneMapIssue::OutOfRange)));
            }
            return Err(ZoneMapError::InvalidZoneMap(ZoneMapIssue::OutOfRange));
        }
        if used[v] {
            proof {
                assert(spec_parse_fields(suffix, num_zones as int, zone_map@) == Err::<
                    Seq<usize>,
                    ZoneMapError,
                >(ZoneMapError::InvalidZoneMap(ZoneMapIssue::Duplicate)));
            }
            return Err(ZoneMapError::InvalidZoneMap(ZoneMapIssue::Duplicate));
        }
        let ghost pre = zone_map@;
        used.set(v, true);
        zone_map.push(v);
        proof {
            assert(zone_map@[pre.len() as int] == v);
            assert(zone_map@.contains(v));
            assert forall|y: int| 0 <= y < num_zones implies (used@[y] <==> zone_map@.contains(
                y as usize,
            )) by {
                if y != v {
                    if zone_map@.contains(y as usize) {
                        let w = choose|w: int|
                            0 <= w < zone_map@.len() && zone_map@[w] == y as usize;
                        assert(w < pre.len() && pre[w] == y as usize);
                        assert(pre.contains(y as usize));
                    }
                    if pre.contains(y as usize) {
                        let w = choose|w: int| 0 <= w < pre.len() && pre[w] == y as usize;
                        assert(zone_map@[w] == y as usize);
                    }
                }
            }
        }
        i = i + 1;
    }
    proof {
        assert(all.subrange(num_zones as int, num_zones as int) =~~= Seq::<Seq<u8>>::empty());
    }
    Ok(zone_map)
}

/// Whatever a successful fold produces: it extends `acc` by one in-range,
/// previously unseen zone number per field, each the number its field
/// denotes.
proof fn lemma_parse_fields_ok(fields: Seq<Seq<u8>>, num_zones: int, acc: Seq<usize>)
    requires
        spec_parse_fields(fields, num_zones, acc) is Ok,
    ensures
        spec_parse_fields(fields, num_zones, acc)->Ok_0.len() == acc.len() + fields.len(),
        spec_parse_fields(fields, num_zones, acc)->Ok_0.subrange(0, acc.len() as int) == acc,
        forall|k: int|
            0 <= k < fields.len() ==> #[trigger] spec_parse_field(fields[k]) == Some(
                spec_parse_fields(fields, num_zones, acc)->Ok_0[acc.len() + k] as int,
            ) && spec_parse_fields(fields, num_zones, acc)->Ok_0[acc.len() + k] < num_zones
                && !spec_parse_fields(fields, num_zones, acc)->Ok_0.subrange(
                0,
                acc.len() + k,
            ).contains(spec_parse_fields(fields, num_zones, acc)->Ok_0[acc.len() + k]),
    decreases fields.len(),
{
    let v = spec_parse_fields(fields, num_zones, acc)->Ok_0;
    if fields.len() == 0 {
        assert(v.subrange(0, acc.len() as int) =~= acc);
    } else {
        let x = spec_parse_field(fields[0])->Some_0;
        assert(0 <= x) by {
            lemma_digits_value_nonneg(spec_trim(fields[0]));
        }
        let acc1 = acc.push(x as usize);
        lemma_parse_fields_ok(fields.drop_first(), num_zones, acc1);
        assert(v.subrange(0, acc1.len() as int).subrange(0, acc.len() as int) =~= v.subrange(
            0,
            acc.len() as int,
        ));
        assert(v.subrange(0, acc.len() as int) =~= acc);
        assert forall|k: int| 0 <= k < fields.len() implies #[trigger] spec_parse_field(fields[k])
            == Some(v[acc.len() + k] as int) && v[acc.len() + k] < num_zones && !v.subrange(
            0,
            acc.len() + k,
        ).contains(v[acc.len() + k]) by {
            if k == 0 {
                assert(v[acc.len() as int] == v.subrange(0, acc1.len() as int)[acc.len() as int]);
                assert(v[acc.len() as int] == x as usize);
                assert(v.subrange(0, acc.len() as int) == acc);
                assert(!acc.contains(x as usize));
            } else {
                assert(fields.drop_first()[k - 1] == fields[k]);
                assert(spec_parse_field(fields.drop_first()[k - 1]) == Some(
                    v[acc1.len() + (k - 1)] as int,
                ));
                assert(!v.subrange(0, acc1.len() + (k - 1)).contains(v[acc1.len() + (k - 1)]));
                assert(v.subrange(0, acc.len() + k) =~= v.subrange(0, acc1.len() + (k - 1)));
            }
        }
    }
}

/// A permutation string that parses successfully always denotes a
/// bijection on the zone indices: exactly `num_zones` entries, each below
/// `num_zones`, no entry repeated, and entry `k` is the number the `k`-th
/// comma-separated field denotes.
pub proof fn lemma_parse_zone_map_ok_is_permutation(s: Seq<u8>, num_zones: int)
    requires
        spec_parse_zone_map(s, num_zones) is Ok,
    ensures
        spec_parse_zone_map(s, num_zones)->Ok_0.len() == num_zones,
        spec_split_commas(s).len() == num_zones,
        forall|k: int|
            0 <= k < num_zones ==> spec_parse_zone_map(s, num_zones)->Ok_0[k] < num_zones,
        forall|p: int, q: int|
            0 <= p < q < num_zones ==> spec_parse_zone_map(s, num_zones)->Ok_0[p]
                != spec_parse_zone_map(s, num_zones)->Ok_0[q],
        forall|k: int|
            0 <= k < num_zones ==> spec_parse_field(spec_split_commas(s)[k]) == Some(
                spec_parse_zone_map(s, num_zones)->Ok_0[k] as int,
            ),
{
    let fields = spec_split_commas(s);
    let v = spec_parse_zone_map(s, num_zones)->Ok_0;
    lemma_parse_fields_ok(fields, num_zones, Seq::empty());
    assert forall|k: int| 0 <= k < num_zones implies #[trigger] spec_parse_field(fields[k]) == Some(
        v[k] as int,
    ) && v[k] < num_zones by {
        assert(spec_parse_field(fields[k]) == Some(v[0 + k] as int));
    }
    assert forall|k: int| 0 <= k < num_zones implies #[trigger] v[k] < num_zones by {
        assert(spec_parse_field(fields[k]) == Some(v[0 + k] as int));
    }
    assert forall|p: int, q: int| 0 <= p < q < num_zones implies v[p] != v[q] by {
        assert(spec_parse_field(fields[q]) == Some(v[0 + q] as int));
        assert(!v.subrange(0, 0 + q).contains(v[0 + q]));
        assert(v.subrange(0, q)[p] == v[p]);
    }
}

/// A permutation string with two fields denoting the same number (or both
/// denoting none) never parses.
pub proof fn lemma_duplicate_field_fails(s: Seq<u8>, num_zones: int, i: int, j: int)
    requires
        0 <= i < j < spec_split_commas(s).len(),
        spec_parse_field(spec_split_commas(s)[i]) == spec_parse_field(spec_split_commas(s)[j]),
    ensures
        spec_parse_zone_map(s, num_zones) is Err,
{
    if spec_parse_zone_map(s, num_zones) is Ok {
        lemma_parse_zone_map_ok_is_permutation(s, num_zones);
    }
}

/// A permutation string whose field count differs from the zone count
/// never parses.
pub proof fn lemma_wrong_count_fails(s: Seq<u8>, num_zones: int)
    requires
        spec_split_commas(s).len() != num_zones,
    ensures
        spec_parse_zone_map(s, num_zones) == Err::<Seq<usize>, ZoneMapError>(
            ZoneMapError::InvalidZoneMap(ZoneMapIssue::WrongCount),
        ),
{
}

/// The position of the first occurrence of `x` in `map`, or -1 if absent.
pub open spec fn spec_first_index(map: Seq<usize>, x: usize) -> int
    decreases map.len(),
{
    if map.len() == 0 {
        -1
    } else if map[0] == x {
        0
    } else if spec_first_index(map.drop_first(), x) == -1 {
        -1
    } else {
        1 + spec_first_index(map.drop_first(), x)
    }
}

/// `spec_first_index` finds exactly the position with no occurrence before
/// it and an occurrence (or the end) at it.
pub proof fn lemma_first_index_is(map: Seq<usize>, x: usize, j: int)
    requires
        0 <= j <= map.len(),
        forall|k: int| 0 <= k < j ==> map[k] != x,
        j == map.len() || map[j] == x,
    ensures
        spec_first_index(map, x) == if j == map.len() {
            -1int
        } else {
            j
        },
    decreases map.len(),
{
    if map.len() != 0 && map[0] != x {
        lemma_first_index_is(map.drop_first(), x, j - 1);
    }
}

/// The logical zone a physical zone maps to: the position at which the
/// physical zone appears in the permutation, or the physical zone itself
/// where the permutation never names it (a malformed permutation falls
/// back to the identity for that zone rather than failing the pipeline).
pub open spec fn spec_remap_zone(map: Seq<usize>, physical: usize) -> int {
    if spec_first_index(map, physical) >= 0 {
        spec_first_index(map, physical)
    } else {
        physical as int
    }
}

/// Maps a physical zone index to its logical zone, per [`spec_remap_zone`].
pub fn remap_zone(physical: usize, zone_map: &Vec<usize>) -> (r: usize)
    ensures
        r as int == spec_remap_zone(zone_map@, physical),
        r < zone_map@.len() || r == physical,
{
    let n = zone_map.len();
    let mut i: usize = 0;
    while i < n
        invariant
            i <= n,
            n == zone_map@.len(),
            forall|k: int| 0 <= k < i ==> zone_map@[k] != physical,
        decreases n - i,
    {
        if zone_map[i] == physical {
            proof {
                lemma_first_index_is(zone_map@, physical, i as int);
            }
            return i;
        }
        i = i + 1;
    }
    proof {
        lemma_first_index_is(zone_map@, physical, n as int);
    }
    physical
}

/// The identity permutation: zone `i` maps to zone `i`.
pub fn create_default_zone_map(num_zones: usize) -> (r: Vec<usize>)
    ensures
        r@.len() == num_zones,
        forall|i: int| 0 <= i < num_zones ==> r@[i] == i,
{
    let mut map: Vec<usize> = Vec::new();
    let mut i: usize = 0;
    while i < num_zones
        invariant
            map@.len() == i <= num_zones,
            forall|k: int| 0 <= k < i ==> map@[k] == k,
        decreases num_zones - i,
    {
        map.push(i);
        i = i + 1;
    }
    map
}

} // verus!
