//! The area resolver: filters a geocoding response down to the
//! relation-typed records, the only usable area source for the street
//! query, and maps each into an `Area` carrying the derived filter id.

use crate::PipelineError;
use vstd::prelude::*;
use vstd::string::*;

verus! {

/// The documented constant the area filter convention adds to a
/// relation id to form a spatial filter id.
pub const AREA_ID_OFFSET: i64 = 3_600_000_000;

/// The largest relation id whose filter id still fits the machine word.
pub const MAX_OSM_ID: i64 = i64::MAX - AREA_ID_OFFSET;

/// The classification of one geocoding record.  Only relation-typed
/// records name administrative boundaries, so only they become areas.
#[derive(Clone, Copy, PartialEq, Eq, Structural, Debug)]
pub enum OsmType {
    Relation,
    Node,
    Way,
    Other,
}

/// One record of a geocoding response, reduced to the fields the
/// resolver reads: its classification, its display name, its kind
/// (city, town, ...), and its numeric id.
#[derive(Clone, Debug)]
pub struct GeoRecord {
    pub osm_type: OsmType,
    pub display_name: String,
    pub kind: String,
    pub osm_id: i64,
}

/// The mathematical value of a `GeoRecord`.
pub struct GeoRecordView {
    pub osm_type: OsmType,
    pub display_name: Seq<char>,
    pub kind: Seq<char>,
    pub osm_id: i64,
}

impl View for GeoRecord {
    type V = GeoRecordView;

    open spec fn view(&self) -> GeoRecordView {
        GeoRecordView {
            osm_type: self.osm_type,
            display_name: self.display_name@,
            kind: self.kind@,
            osm_id: self.osm_id,
        }
    }
}

/// A named administrative region whose `area_id` the graph fetch uses
/// as a spatial filter; `key` is the query the record came from.
#[derive(Clone, Debug)]
pub struct Area {
    pub key: String,
    pub name: String,
    pub kind: String,
    pub area_id: i64,
}

/// The mathematical value of an `Area`.
pub struct AreaView {
    pub key: Seq<char>,
    pub name: Seq<char>,
    pub kind: Seq<char>,
    pub area_id: i64,
}

impl View for Area {
    type V = AreaView;

    open spec fn view(&self) -> AreaView {
        AreaView {
            key: self.key@,
            name: self.name@,
            kind: self.kind@,
            area_id: self.area_id,
        }
    }
}

/// The view of an area list.
pub open spec fn areas_view(areas: Seq<Area>) -> Seq<AreaView> {
    areas.map_values(|a: Area| a@)
}

/// The view of a record list.
pub open spec fn records_view(records: Seq<GeoRecord>) -> Seq<GeoRecordView> {
    records.map_values(|r: GeoRecord| r@)
}

/// The area one relation record maps to: the original query as key, the
/// record's display name and kind, and the offset relation id.
pub open spec fn spec_area_of(key: Seq<char>, r: GeoRecordView) -> AreaView {
    AreaView {
        key: key,
        name: r.display_name,
        kind: r.kind,
        area_id: (r.osm_id + AREA_ID_OFFSET) as i64,
    }
}

/// The resolver's result: every relation-typed record mapped to its
/// area, in response order; every other record is dropped.
pub open spec fn spec_resolve(key: Seq<char>, records: Seq<GeoRecordView>) -> Seq<AreaView>
    decreases records.len(),
{
    if records.len() == 0 {
        Seq::empty()
    } else {
        let init = spec_resolve(key, records.drop_last());
        if records.last().osm_type is Relation {
            init.push(spec_area_of(key, records.last()))
        } else {
            init
        }
    }
}

/// Resolves a geocoding response for the query `key`: keeps exactly the
/// relation-typed records, in order, as `Area`s.  A response without a
/// single relation record resolves nothing and is `NotFound`.
pub fn resolve(key: &str, records: &Vec<GeoRecord>) -> (r: Result<Vec<Area>, PipelineError>)
    requires
        forall|i: int|
            0 <= i < records@.len() ==> 0 <= #[trigger] records@[i].osm_id <= MAX_OSM_ID,
    ensures
        match r {
            Ok(areas) => {
                &&& areas_view(areas@) == spec_resolve(key@, records_view(records@))
                &&& areas@.len() > 0
            },
            Err(e) => {
                &&& e == PipelineError::NotFound
                &&& spec_resolve(key@, records_view(records@)).len() == 0
            },
        },
{
    let ghost rv = records_view(records@);
    let mut areas: Vec<Area> = Vec::new();
    let n = records.len();
    let mut i: usize = 0;
    while i < n
        invariant
            0 <= i <= n == records@.len(),
            rv == records_view(records@),
            forall|j: int|
                0 <= j < records@.len() ==> 0 <= #[trigger] records@[j].osm_id <= MAX_OSM_ID,
            areas_view(areas@) == spec_resolve(key@, rv.take(i as int)),
        decreases n - i,
    {
        proof {
            assert(rv.take(i as int + 1).drop_last() =~= rv.take(i as int));
            assert(rv.take(i as int + 1).last() == rv[i as int]);
            assert(rv[i as int] == records@[i as int]@);
        }
        let record = &records[i];
        match record.osm_type {
            OsmType::Relation => {
                let area = Area {
                    key: String::from_str(key),
                    name: record.display_name.clone(),
                    kind: record.kind.clone(),
                    area_id: record.osm_id + AREA_ID_OFFSET,
                };
                areas.push(area);
                proof {
                    assert(areas_view(areas@) =~= spec_resolve(key@, rv.take(i as int + 1)));
                }
            },
            _ => {
                proof {
                    assert(!(rv[i as int].osm_type is Relation));
                }
            },
        }
        i = i + 1;
    }
    proof {
        assert(rv.take(n as int) =~= rv);
    }
    if areas.len() == 0 {
        proof {
            assert(areas_view(areas@).len() == 0);
        }
        Err(PipelineError::NotFound)
    } else {
        Ok(areas)
    }
}

} // verus!
