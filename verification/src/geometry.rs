//! Shifting a Lighthouse base station geometry file.
//!
//! The file is `{geos: {<bs id>: {origin: [x, y, z], rotation: [[..]]}}, ...}`.
//! Only the `origin` positions move; rotation matrices and any `calibs` section
//! are left untouched.
use crate::stats::XyzValue;
use crate::yaml::{
    as_mapping_mut, as_sequence_mut, child, entry_value_mut, get_mut, is_number,
    lemma_with_untagged, mapping_entries, mapping_len, number_value, parse_document, trees,
    untagged, value_tree, with_child, with_child_lookup, with_untagged, write_document,
    yaml_parsed, yaml_written, YamlTree,
};
use serde_yaml::{Mapping, Number, Value};
use vstd::prelude::*;

verus! {

/// What a geometry document can lack.
#[derive(Clone, Copy, Debug, PartialEq, Eq, Structural)]
pub enum GeometryFault {
    /// There is no `geos` section.
    NoGeos,
    /// The `geos` section is not a mapping.
    GeosNotMapping,
    /// A base station has no `origin` sequence.
    MissingOrigin,
    /// One of the first three `origin` values is not a number.
    OriginNotNumber,
}

/// Why a geometry file could not be shifted.
#[derive(Debug)]
pub enum GeometryError {
    /// The text could not be read or written as YAML.
    Yaml(serde_yaml::Error),
    /// The document is not a geometry.
    Fault(GeometryFault),
}

impl GeometryFault {
    pub open spec fn spec_message(self) -> Seq<char> {
        match self {
            GeometryFault::NoGeos =>
                "YAML has no 'geos' section — expected a Lighthouse base station geometry file"@,
            GeometryFault::GeosNotMapping => "'geos' is not a mapping"@,
            GeometryFault::MissingOrigin => "a base station entry is missing 'origin'"@,
            GeometryFault::OriginNotNumber => "an 'origin' value is not a number"@,
        }
    }

    /// The fault in words.
    pub fn message(self) -> (r: &'static str)
        ensures
            r@ == self.spec_message(),
    {
        match self {
            GeometryFault::NoGeos =>
                "YAML has no 'geos' section — expected a Lighthouse base station geometry file",
            GeometryFault::GeosNotMapping => "'geos' is not a mapping",
            GeometryFault::MissingOrigin => "a base station entry is missing 'origin'",
            GeometryFault::OriginNotNumber => "an 'origin' value is not a number",
        }
    }
}

/// The number of axes that a shift moves.
pub const AXES: usize = 3;

/// The `origin` sequence of a base station.
pub open spec fn origin_of(geo: YamlTree) -> Option<Seq<YamlTree>> {
    match child(geo, "origin"@) {
        Some(origin) => match untagged(origin) {
            YamlTree::Sequence(items) => Some(items),
            _ => None,
        },
        None => None,
    }
}

/// The first fault of a list of axes, of which the first three count.
pub open spec fn axes_fault(items: Seq<YamlTree>) -> Option<GeometryFault> {
    if exists|j: int|
        0 <= j < AXES && j < items.len() && !(untagged(#[trigger] items[j]) is Number) {
        Some(GeometryFault::OriginNotNumber)
    } else {
        None
    }
}

/// The fault of one base station entry.
pub open spec fn geo_fault(geo: YamlTree) -> Option<GeometryFault> {
    match origin_of(geo) {
        Some(items) => axes_fault(items),
        None => Some(GeometryFault::MissingOrigin),
    }
}

/// The fault of the first base station entry that has one.
pub open spec fn entries_fault(entries: Seq<(YamlTree, YamlTree)>) -> Option<GeometryFault>
    decreases entries.len(),
{
    if entries.len() == 0 {
        None
    } else if geo_fault(entries[0].1) is Some {
        geo_fault(entries[0].1)
    } else {
        entries_fault(entries.drop_first())
    }
}

/// The fault for which a document cannot be shifted.
pub open spec fn document_fault(document: YamlTree) -> Option<GeometryFault> {
    match child(document, "geos"@) {
        None => Some(GeometryFault::NoGeos),
        Some(geos) => match untagged(geos) {
            YamlTree::Mapping(entries) => entries_fault(entries),
            _ => Some(GeometryFault::GeosNotMapping),
        },
    }
}

/// The part of a shift along an axis of an origin, which lists x, y and z.
pub open spec fn axis_delta<T>(shift: XyzValue<T>, axis: int) -> T {
    if axis == 0 {
        shift.x
    } else if axis == 1 {
        shift.y
    } else {
        shift.z
    }
}

/// `after` is a plain number that `plus` gave for the value `before` and `delta`.
pub open spec fn axis_shifted<T: Copy, F: Fn(&Value, T) -> Number>(
    plus: F,
    delta: T,
    before: YamlTree,
    after: YamlTree,
) -> bool {
    exists|v: Value, n: Number| #[trigger]
        value_tree(v) == before && #[trigger] call_ensures(plus, (&v, delta), n) && after
            == YamlTree::Number(n)
}

/// The first three axes are shifted and any further ones are kept.
pub open spec fn axes_shifted<T: Copy, F: Fn(&Value, T) -> Number>(
    plus: F,
    shift: XyzValue<T>,
    before: Seq<YamlTree>,
    after: Seq<YamlTree>,
) -> bool {
    &&& after.len() == before.len()
    &&& forall|j: int|
        0 <= j < AXES && j < before.len() ==> axis_shifted(
            plus,
            axis_delta(shift, j),
            before[j],
            #[trigger] after[j],
        )
    &&& forall|j: int| AXES <= j < before.len() ==> #[trigger] after[j] == before[j]
}

/// The base station with its `origin` sequence replaced.
pub open spec fn with_origin(geo: YamlTree, items: Seq<YamlTree>) -> YamlTree {
    with_child(
        geo,
        "origin"@,
        with_untagged(child(geo, "origin"@).unwrap(), YamlTree::Sequence(items)),
    )
}

/// The base station has its origin shifted and is the same otherwise.
pub open spec fn geo_shifted<T: Copy, F: Fn(&Value, T) -> Number>(
    plus: F,
    shift: XyzValue<T>,
    before: YamlTree,
    after: YamlTree,
) -> bool {
    exists|items: Seq<YamlTree>|
        axes_shifted(plus, shift, origin_of(before).unwrap(), items) && after
            == #[trigger] with_origin(before, items)
}

/// Every base station is shifted; their ids and order are kept.
pub open spec fn entries_shifted<T: Copy, F: Fn(&Value, T) -> Number>(
    plus: F,
    shift: XyzValue<T>,
    before: Seq<(YamlTree, YamlTree)>,
    after: Seq<(YamlTree, YamlTree)>,
) -> bool {
    &&& after.len() == before.len()
    &&& forall|i: int|
        0 <= i < before.len() ==> (#[trigger] after[i]).0 == before[i].0 && geo_shifted(
            plus,
            shift,
            before[i].1,
            after[i].1,
        )
}

/// The document with the entries of its `geos` section replaced.
pub open spec fn with_geos(document: YamlTree, entries: Seq<(YamlTree, YamlTree)>) -> YamlTree {
    with_child(
        document,
        "geos"@,
        with_untagged(child(document, "geos"@).unwrap(), YamlTree::Mapping(entries)),
    )
}

/// Every base station of the document is shifted and nothing else differs.
pub open spec fn document_shifted<T: Copy, F: Fn(&Value, T) -> Number>(
    plus: F,
    shift: XyzValue<T>,
    before: YamlTree,
    after: YamlTree,
) -> bool {
    exists|entries: Seq<(YamlTree, YamlTree)>|
        entries_shifted(plus, shift, geos_of(before), entries) && after == #[trigger] with_geos(
            before,
            entries,
        )
}

/// The base station entries of a document.
pub open spec fn geos_of(document: YamlTree) -> Seq<(YamlTree, YamlTree)> {
    match child(document, "geos"@) {
        Some(geos) => match untagged(geos) {
            YamlTree::Mapping(entries) => entries,
            _ => seq![],
        },
        None => seq![],
    }
}

/// `plus` may be asked for the sum of any numeric value and any delta.
pub open spec fn plus_accepts<T: Copy, F: Fn(&Value, T) -> Number>(plus: F) -> bool {
    forall|v: Value, delta: T|
        untagged(value_tree(v)) is Number ==> #[trigger] call_requires(plus, (&v, delta))
}

fn shift_axes<T: Copy, F: Fn(&Value, T) -> Number>(
    items: &mut Vec<Value>,
    shift: XyzValue<T>,
    plus: &F,
) -> (r: Option<GeometryFault>)
    requires
        plus_accepts::<T, F>(*plus),
    ensures
        r == axes_fault(trees(old(items)@)),
        r is None ==> axes_shifted(*plus, shift, trees(old(items)@), trees(final(items)@)),
{
    let mut j: usize = 0;
    while j < AXES && j < items.len()
        invariant
            j <= AXES,
            items@.len() == old(items)@.len(),
            plus_accepts::<T, F>(*plus),
            forall|k: int| j <= k < items@.len() ==> #[trigger] items@[k] == old(items)@[k],
            forall|k: int|
                0 <= k < j && k < items@.len() ==> untagged(
                    value_tree(#[trigger] old(items)@[k]),
                ) is Number,
            forall|k: int|
                0 <= k < j && k < items@.len() ==> axis_shifted(
                    *plus,
                    axis_delta(shift, k),
                    value_tree(old(items)@[k]),
                    value_tree(#[trigger] items@[k]),
                ),
        decreases AXES - j,
    {
        if !is_number(&items[j]) {
            assert(!(untagged(trees(old(items)@)[j as int]) is Number));
            return Some(GeometryFault::OriginNotNumber);
        }
        let delta = if j == 0 {
            shift.x
        } else if j == 1 {
            shift.y
        } else {
            shift.z
        };
        let n = plus(&items[j], delta);
        assert(axis_shifted(
            *plus,
            axis_delta(shift, j as int),
            value_tree(old(items)@[j as int]),
            YamlTree::Number(n),
        ));
        items[j] = number_value(n);
        j += 1;
    }
    None
}

fn shift_geo<T: Copy, F: Fn(&Value, T) -> Number>(
    geo: &mut Value,
    shift: XyzValue<T>,
    plus: &F,
) -> (r: Option<GeometryFault>)
    requires
        plus_accepts::<T, F>(*plus),
    ensures
        r == geo_fault(value_tree(*old(geo))),
        r is None ==> geo_shifted(*plus, shift, value_tree(*old(geo)), value_tree(*final(geo))),
{
    let ghost mut after: Seq<YamlTree> = seq![];
    let fault = match get_mut(geo, "origin") {
        None => Some(GeometryFault::MissingOrigin),
        Some(origin) => match as_sequence_mut(origin) {
            None => Some(GeometryFault::MissingOrigin),
            Some(items) => {
                let fault = shift_axes(items, shift, plus);
                proof {
                    after = trees(items@);
                }
                fault
            },
        },
    };
    assert(fault is None ==> value_tree(*geo) == with_origin(value_tree(*old(geo)), after));
    fault
}

fn shift_entries<T: Copy, F: Fn(&Value, T) -> Number>(
    map: &mut Mapping,
    shift: XyzValue<T>,
    plus: &F,
) -> (r: Option<GeometryFault>)
    requires
        plus_accepts::<T, F>(*plus),
    ensures
        r == entries_fault(mapping_entries(*old(map))),
        r is None ==> entries_shifted(
            *plus,
            shift,
            mapping_entries(*old(map)),
            mapping_entries(*final(map)),
        ),
{
    let n: usize = mapping_len(map);
    let ghost before = mapping_entries(*map);
    assert(before.skip(0) =~= before);
    let mut i: usize = 0;
    while i < n
        invariant
            i <= n,
            n == before.len(),
            before == mapping_entries(*old(map)),
            mapping_entries(*map).len() == n,
            plus_accepts::<T, F>(*plus),
            entries_fault(before) == entries_fault(before.skip(i as int)),
            forall|k: int| i <= k < n ==> #[trigger] mapping_entries(*map)[k] == before[k],
            forall|k: int|
                0 <= k < i ==> (#[trigger] mapping_entries(*map)[k]).0 == before[k].0
                    && geo_shifted(*plus, shift, before[k].1, mapping_entries(*map)[k].1),
        decreases n - i,
    {
        assert(before.skip(i as int)[0] == before[i as int]);
        assert(before.skip(i as int).drop_first() =~= before.skip(i + 1));
        let fault = shift_geo(entry_value_mut(map, i), shift, plus);
        if fault.is_some() {
            return fault;
        }
        i += 1;
    }
    None
}

/// Shifts the origin of every base station of a geometry document, in place.
///
/// `plus` adds to a number of the document the part of the shift along its axis.
pub fn shift_lh_geometry<T: Copy, F: Fn(&Value, T) -> Number>(
    document: &mut Value,
    shift: XyzValue<T>,
    plus: &F,
) -> (r: Result<(), GeometryFault>)
    requires
        plus_accepts::<T, F>(*plus),
    ensures
        match document_fault(value_tree(*old(document))) {
            Some(fault) => r == Err::<(), GeometryFault>(fault),
            None => r is Ok && document_shifted(
                *plus,
                shift,
                value_tree(*old(document)),
                value_tree(*final(document)),
            ),
        },
{
    let ghost mut after: Seq<(YamlTree, YamlTree)> = seq![];
    let fault = match get_mut(document, "geos") {
        None => Some(GeometryFault::NoGeos),
        Some(geos) => match as_mapping_mut(geos) {
            None => Some(GeometryFault::GeosNotMapping),
            Some(map) => {
                let fault = shift_entries(map, shift, plus);
                proof {
                    after = mapping_entries(*map);
                }
                fault
            },
        },
    };
    assert(fault is None ==> value_tree(*document) == with_geos(
        value_tree(*old(document)),
        after,
    ));
    match fault {
        Some(fault) => Err(fault),
        None => Ok(()),
    }
}

/// Shifts the origin of every base station of a geometry file.
///
/// The text is read as YAML, shifted and written again. Whether the text can be
/// read, and the text that comes out, are `serde_yaml`'s.
pub fn shift_lh_geometry_yaml<T: Copy, F: Fn(&Value, T) -> Number>(
    content: &str,
    shift: XyzValue<T>,
    plus: &F,
) -> (r: Result<String, GeometryError>)
    requires
        plus_accepts::<T, F>(*plus),
    ensures
        match yaml_parsed(content@) {
            None => r matches Err(GeometryError::Yaml(_)),
            Some(before) => match document_fault(before) {
                Some(fault) => r == Err::<String, GeometryError>(GeometryError::Fault(fault)),
                None => exists|after: YamlTree| #[trigger]
                    document_shifted(*plus, shift, before, after) && match yaml_written(after) {
                        Some(text) => r is Ok && r->Ok_0@ == text,
                        None => r matches Err(GeometryError::Yaml(_)),
                    },
            },
        },
{
    let mut document = match parse_document(content) {
        Ok(document) => document,
        Err(e) => return Err(GeometryError::Yaml(e)),
    };
    match shift_lh_geometry(&mut document, shift, plus) {
        Ok(()) => {},
        Err(fault) => return Err(GeometryError::Fault(fault)),
    }
    match write_document(&document) {
        Ok(text) => Ok(text),
        Err(e) => Err(GeometryError::Yaml(e)),
    }
}

/// The entries of a shifted document are the shifted entries.
proof fn lemma_with_geos(document: YamlTree, entries: Seq<(YamlTree, YamlTree)>)
    requires
        child(document, "geos"@) is Some,
    ensures
        child(with_geos(document, entries), "geos"@) is Some,
        untagged(child(with_geos(document, entries), "geos"@).unwrap()) == YamlTree::Mapping(
            entries,
        ),
        geos_of(with_geos(document, entries)) == entries,
{
    let geos = with_untagged(child(document, "geos"@).unwrap(), YamlTree::Mapping(entries));
    with_child_lookup(document, "geos"@, geos, "geos"@);
    lemma_with_untagged(child(document, "geos"@).unwrap(), YamlTree::Mapping(entries));
}

proof fn lemma_with_origin(geo: YamlTree, items: Seq<YamlTree>)
    requires
        child(geo, "origin"@) is Some,
    ensures
        origin_of(with_origin(geo, items)) == Some(items),
{
    let origin = with_untagged(child(geo, "origin"@).unwrap(), YamlTree::Sequence(items));
    with_child_lookup(geo, "origin"@, origin, "origin"@);
    lemma_with_untagged(child(geo, "origin"@).unwrap(), YamlTree::Sequence(items));
}

proof fn lemma_entry_without_fault(entries: Seq<(YamlTree, YamlTree)>, i: int)
    requires
        entries_fault(entries) is None,
        0 <= i < entries.len(),
    ensures
        geo_fault(entries[i].1) is None,
    decreases entries.len(),
{
    if i > 0 {
        lemma_entry_without_fault(entries.drop_first(), i - 1);
        assert(entries.drop_first()[i - 1] == entries[i]);
    }
}

proof fn lemma_entries_without_fault(entries: Seq<(YamlTree, YamlTree)>)
    requires
        forall|i: int| 0 <= i < entries.len() ==> geo_fault((#[trigger] entries[i]).1) is None,
    ensures
        entries_fault(entries) is None,
    decreases entries.len(),
{
    if entries.len() > 0 {
        let rest = entries.drop_first();
        assert forall|i: int| 0 <= i < rest.len() implies geo_fault(
            (#[trigger] rest[i]).1,
        ) is None by {
            assert(rest[i] == entries[i + 1]);
        }
        lemma_entries_without_fault(rest);
    }
}

/// A shift leaves every section of the document but `geos`, among them any
/// `calibs`, as it was.
pub proof fn shift_keeps_other_sections<T: Copy, F: Fn(&Value, T) -> Number>(
    plus: F,
    shift: XyzValue<T>,
    before: YamlTree,
    after: YamlTree,
    section: Seq<char>,
)
    requires
        document_fault(before) is None,
        document_shifted(plus, shift, before, after),
        section != "geos"@,
    ensures
        child(after, section) == child(before, section),
{
    let entries = choose|entries: Seq<(YamlTree, YamlTree)>|
        entries_shifted(plus, shift, geos_of(before), entries) && after == #[trigger] with_geos(
            before,
            entries,
        );
    let geos = with_untagged(child(before, "geos"@).unwrap(), YamlTree::Mapping(entries));
    with_child_lookup(before, "geos"@, geos, section);
}

/// A shift keeps the base stations, their ids and their order, and of each base
/// station everything but its origin, the rotation matrix among it. Of the
/// origin the first three values are replaced and any others kept.
pub proof fn shift_moves_origins_only<T: Copy, F: Fn(&Value, T) -> Number>(
    plus: F,
    shift: XyzValue<T>,
    before: YamlTree,
    after: YamlTree,
    station: int,
    field: Seq<char>,
)
    requires
        document_fault(before) is None,
        document_shifted(plus, shift, before, after),
        0 <= station < geos_of(before).len(),
    ensures
        geos_of(after).len() == geos_of(before).len(),
        geos_of(after)[station].0 == geos_of(before)[station].0,
        field != "origin"@ ==> child(geos_of(after)[station].1, field) == child(
            geos_of(before)[station].1,
            field,
        ),
        origin_of(geos_of(before)[station].1) is Some,
        origin_of(geos_of(after)[station].1) is Some,
        axes_shifted(
            plus,
            shift,
            origin_of(geos_of(before)[station].1).unwrap(),
            origin_of(geos_of(after)[station].1).unwrap(),
        ),
{
    let entries = choose|entries: Seq<(YamlTree, YamlTree)>|
        entries_shifted(plus, shift, geos_of(before), entries) && after == #[trigger] with_geos(
            before,
            entries,
        );
    lemma_with_geos(before, entries);
    let old_geo = geos_of(before)[station].1;
    assert(entries[station].0 == geos_of(before)[station].0);
    assert(geo_shifted(plus, shift, old_geo, entries[station].1));
    lemma_entry_without_fault(geos_of(before), station);
    let items = choose|items: Seq<YamlTree>|
        axes_shifted(plus, shift, origin_of(old_geo).unwrap(), items) && entries[station].1
            == #[trigger] with_origin(old_geo, items);
    lemma_with_origin(old_geo, items);
    with_child_lookup(
        old_geo,
        "origin"@,
        with_untagged(child(old_geo, "origin"@).unwrap(), YamlTree::Sequence(items)),
        field,
    );
}

/// A shifted geometry is a geometry: it can be shifted again.
pub proof fn shifted_document_has_no_fault<T: Copy, F: Fn(&Value, T) -> Number>(
    plus: F,
    shift: XyzValue<T>,
    before: YamlTree,
    after: YamlTree,
)
    requires
        document_fault(before) is None,
        document_shifted(plus, shift, before, after),
    ensures
        document_fault(after) is None,
{
    let entries = choose|entries: Seq<(YamlTree, YamlTree)>|
        entries_shifted(plus, shift, geos_of(before), entries) && after == #[trigger] with_geos(
            before,
            entries,
        );
    lemma_with_geos(before, entries);
    assert forall|i: int| 0 <= i < entries.len() implies geo_fault(
        (#[trigger] entries[i]).1,
    ) is None by {
        shift_moves_origins_only(plus, shift, before, after, i, "origin"@);
        let items = origin_of(entries[i].1).unwrap();
        assert forall|j: int| 0 <= j < AXES && j < items.len() implies untagged(
            #[trigger] items[j],
        ) is Number by {}
    }
    lemma_entries_without_fault(entries);
}

/// A base station has an `origin` sequence.
pub open spec fn has_origin(geo: YamlTree) -> bool {
    child(geo, "origin"@) is Some && untagged(child(geo, "origin"@).unwrap()) is Sequence
}

/// A base station can be shifted: it has an `origin` sequence whose values for x,
/// y and z are numbers.
pub open spec fn is_complete(geo: YamlTree) -> bool {
    has_origin(geo) && {
        let items = untagged(child(geo, "origin"@).unwrap())->Sequence_0;
        forall|j: int| 0 <= j < 3 && j < items.len() ==> untagged(#[trigger] items[j]) is Number
    }
}

/// The base stations of a document, if it has a `geos` mapping.
pub open spec fn stations(document: YamlTree) -> Option<Seq<(YamlTree, YamlTree)>> {
    match child(document, "geos"@) {
        Some(geos) => if untagged(geos) is Mapping {
            Some(untagged(geos)->Mapping_0)
        } else {
            None
        },
        None => None,
    }
}

proof fn lemma_complete(geo: YamlTree)
    ensures
        geo_fault(geo) is None <==> is_complete(geo),
        !has_origin(geo) ==> geo_fault(geo) == Some(GeometryFault::MissingOrigin),
        has_origin(geo) && !is_complete(geo) ==> geo_fault(geo) == Some(
            GeometryFault::OriginNotNumber,
        ),
{
}

proof fn lemma_first_fault(entries: Seq<(YamlTree, YamlTree)>, k: int)
    requires
        0 <= k < entries.len(),
        forall|i: int| 0 <= i < k ==> is_complete((#[trigger] entries[i]).1),
        !is_complete(entries[k].1),
    ensures
        entries_fault(entries) == geo_fault(entries[k].1),
        entries_fault(entries) is Some,
    decreases k,
{
    lemma_complete(entries[0].1);
    lemma_complete(entries[k].1);
    if k > 0 {
        let rest = entries.drop_first();
        assert(is_complete(entries[0].1));
        assert forall|i: int| 0 <= i < k - 1 implies is_complete((#[trigger] rest[i]).1) by {
            assert(rest[i] == entries[i + 1]);
        }
        assert(rest[k - 1] == entries[k]);
        lemma_first_fault(rest, k - 1);
    }
}

/// A document is shifted exactly if it has a `geos` mapping whose base stations
/// can all be shifted.
pub proof fn complete_geometries_are_shifted<T: Copy, F: Fn(&Value, T) -> Number>(
    document: &mut Value,
    shift: XyzValue<T>,
    plus: &F,
    r: Result<(), GeometryFault>,
)
    requires
        call_ensures(shift_lh_geometry::<T, F>, (document, shift, plus), r),
    ensures
        ({
            let before = value_tree(*old(document));
            r is Ok <==> stations(before) is Some && forall|i: int|
                0 <= i < stations(before).unwrap().len() ==> is_complete(
                    (#[trigger] stations(before).unwrap()[i]).1,
                )
        }),
{
    let before = value_tree(*old(document));
    if stations(before) is Some {
        lemma_faultless(stations(before).unwrap());
    }
}

proof fn lemma_faultless(entries: Seq<(YamlTree, YamlTree)>)
    ensures
        entries_fault(entries) is None <==> forall|i: int|
            0 <= i < entries.len() ==> is_complete((#[trigger] entries[i]).1),
    decreases entries.len(),
{
    if entries_fault(entries) is None {
        assert forall|i: int| 0 <= i < entries.len() implies is_complete(
            (#[trigger] entries[i]).1,
        ) by {
            lemma_entry_without_fault(entries, i);
            lemma_complete(entries[i].1);
        }
    }
    if forall|i: int| 0 <= i < entries.len() ==> is_complete((#[trigger] entries[i]).1) {
        assert forall|i: int| 0 <= i < entries.len() implies geo_fault(
            (#[trigger] entries[i]).1,
        ) is None by {
            assert(is_complete(entries[i].1));
            lemma_complete(entries[i].1);
        }
        lemma_entries_without_fault(entries);
    }
}

/// A document that cannot be shifted is refused for what it lacks: the `geos`
/// section, a mapping there, or what the first base station that cannot be shifted
/// lacks.
pub proof fn faults_are_told_apart<T: Copy, F: Fn(&Value, T) -> Number>(
    document: &mut Value,
    shift: XyzValue<T>,
    plus: &F,
    r: Result<(), GeometryFault>,
    k: int,
)
    requires
        call_ensures(shift_lh_geometry::<T, F>, (document, shift, plus), r),
    ensures
        ({
            let before = value_tree(*old(document));
            let geos = child(before, "geos"@);
            &&& geos is None ==> r == Err::<(), GeometryFault>(GeometryFault::NoGeos)
            &&& geos is Some && !(untagged(geos.unwrap()) is Mapping) ==> r == Err::<
                (),
                GeometryFault,
            >(GeometryFault::GeosNotMapping)
            &&& stations(before) is Some && 0 <= k < stations(before).unwrap().len() && (forall|
                i: int,
            |
                0 <= i < k ==> is_complete((#[trigger] stations(before).unwrap()[i]).1))
                && !is_complete(stations(before).unwrap()[k].1) ==> r == Err::<(), GeometryFault>(
                if has_origin(stations(before).unwrap()[k].1) {
                    GeometryFault::OriginNotNumber
                } else {
                    GeometryFault::MissingOrigin
                },
            )
        }),
{
    let before = value_tree(*old(document));
    if stations(before) is Some {
        let entries = stations(before).unwrap();
        if 0 <= k < entries.len() && (forall|i: int|
            0 <= i < k ==> is_complete((#[trigger] entries[i]).1)) && !is_complete(entries[k].1) {
            lemma_first_fault(entries, k);
            lemma_complete(entries[k].1);
        }
    }
}

/// `after` is a number that `plus` gives for `before` and `delta`.
pub open spec fn sum_of<T: Copy, F: Fn(&Value, T) -> Number>(
    plus: F,
    before: YamlTree,
    delta: T,
    after: YamlTree,
) -> bool {
    exists|v: Value, n: Number| #[trigger]
        value_tree(v) == before && #[trigger] call_ensures(plus, (&v, delta), n) && after
            == YamlTree::Number(n)
}

/// A shift adds to the first value of every origin the shift along x, to the
/// second that along y and to the third that along z. Further values, all other
/// fields of a base station, the ids, the order and the number of base stations
/// and all other sections of the document stay.
pub proof fn origins_move_along_their_axes<T: Copy, F: Fn(&Value, T) -> Number>(
    document: &mut Value,
    shift: XyzValue<T>,
    plus: &F,
    r: Result<(), GeometryFault>,
    section: Seq<char>,
    station: int,
    field: Seq<char>,
    j: int,
)
    requires
        call_ensures(shift_lh_geometry::<T, F>, (document, shift, plus), r),
        r is Ok,
    ensures
        geometry_moves(
            *plus,
            shift,
            value_tree(*old(document)),
            value_tree(*final(document)),
            section,
            station,
            field,
            j,
        ),
{
    lemma_geometry_moves(
        *plus,
        shift,
        value_tree(*old(document)),
        value_tree(*final(document)),
        section,
        station,
        field,
        j,
    );
}

/// What a shift does to a geometry, seen at one section, at one field of one base
/// station and at one value of its origin.
pub open spec fn geometry_moves<T: Copy, F: Fn(&Value, T) -> Number>(
    plus: F,
    shift: XyzValue<T>,
    before: YamlTree,
    after: YamlTree,
    section: Seq<char>,
    station: int,
    field: Seq<char>,
    j: int,
) -> bool {
    &&& section != "geos"@ ==> child(after, section) == child(before, section)
    &&& stations(before) is Some && stations(after) is Some
    &&& stations(after).unwrap().len() == stations(before).unwrap().len()
    &&& 0 <= station < stations(before).unwrap().len() ==> {
        let (id, geo) = stations(before).unwrap()[station];
        let (new_id, new_geo) = stations(after).unwrap()[station];
        &&& new_id == id
        &&& field != "origin"@ ==> child(new_geo, field) == child(geo, field)
        &&& has_origin(geo) && has_origin(new_geo)
        &&& {
            let items = untagged(child(geo, "origin"@).unwrap())->Sequence_0;
            let new_items = untagged(child(new_geo, "origin"@).unwrap())->Sequence_0;
            &&& new_items.len() == items.len()
            &&& 0 < items.len() ==> sum_of(plus, items[0], shift.x, new_items[0])
            &&& 1 < items.len() ==> sum_of(plus, items[1], shift.y, new_items[1])
            &&& 2 < items.len() ==> sum_of(plus, items[2], shift.z, new_items[2])
            &&& 3 <= j < items.len() ==> new_items[j] == items[j]
        }
    }
}

proof fn lemma_geometry_moves<T: Copy, F: Fn(&Value, T) -> Number>(
    plus: F,
    shift: XyzValue<T>,
    before: YamlTree,
    after: YamlTree,
    section: Seq<char>,
    station: int,
    field: Seq<char>,
    j: int,
)
    requires
        document_fault(before) is None,
        document_shifted(plus, shift, before, after),
    ensures
        geometry_moves(plus, shift, before, after, section, station, field, j),
{
    if section != "geos"@ {
        shift_keeps_other_sections(plus, shift, before, after, section);
    }
    let entries = choose|entries: Seq<(YamlTree, YamlTree)>|
        entries_shifted(plus, shift, geos_of(before), entries) && after == #[trigger] with_geos(
            before,
            entries,
        );
    lemma_with_geos(before, entries);
    assert(stations(before) == Some(geos_of(before)));
    assert(stations(after) == Some(entries));
    if 0 <= station < geos_of(before).len() {
        shift_moves_origins_only(plus, shift, before, after, station, field);
        let items = origin_of(geos_of(before)[station].1).unwrap();
        let new_items = origin_of(entries[station].1).unwrap();
        assert(axes_shifted(plus, shift, items, new_items));
        if 0 < items.len() {
            assert(axis_shifted(plus, axis_delta(shift, 0), items[0], new_items[0]));
        }
        if 1 < items.len() {
            assert(axis_shifted(plus, axis_delta(shift, 1), items[1], new_items[1]));
        }
        if 2 < items.len() {
            assert(axis_shifted(plus, axis_delta(shift, 2), items[2], new_items[2]));
        }
        if 3 <= j < items.len() {
            assert(new_items[j] == items[j]);
        }
    }
}

/// A geometry file that is shifted is read, its document moved, and what comes out
/// is the moved document written down; a text that is no YAML, and a document that
/// cannot be shifted, are refused.
pub proof fn geometry_file_is_read_moved_and_written<T: Copy, F: Fn(&Value, T) -> Number>(
    content: &str,
    shift: XyzValue<T>,
    plus: &F,
    r: Result<String, GeometryError>,
    section: Seq<char>,
    station: int,
    field: Seq<char>,
    j: int,
)
    requires
        call_ensures(shift_lh_geometry_yaml::<T, F>, (content, shift, plus), r),
    ensures
        yaml_parsed(content@) is None ==> r matches Err(GeometryError::Yaml(_)),
        r matches Ok(text) ==> yaml_parsed(content@) is Some && exists|after: YamlTree|
            yaml_written(after) == Some(text@) && #[trigger] geometry_moves(
                *plus,
                shift,
                yaml_parsed(content@).unwrap(),
                after,
                section,
                station,
                field,
                j,
            ),
        yaml_parsed(content@) matches Some(before) ==> (r matches Err(GeometryError::Fault(_))
            <==> !(stations(before) is Some && forall|i: int|
            0 <= i < stations(before).unwrap().len() ==> is_complete(
                (#[trigger] stations(before).unwrap()[i]).1,
            ))),
{
    if yaml_parsed(content@) is Some {
        let before = yaml_parsed(content@).unwrap();
        if stations(before) is Some {
            lemma_faultless(stations(before).unwrap());
        }
        if r is Ok {
            let after = choose|after: YamlTree| #[trigger]
                document_shifted(*plus, shift, before, after) && match yaml_written(after) {
                    Some(text) => r is Ok && r->Ok_0@ == text,
                    None => r matches Err(GeometryError::Yaml(_)),
                };
            lemma_geometry_moves(*plus, shift, before, after, section, station, field, j);
        }
    }
}

} // verus!
