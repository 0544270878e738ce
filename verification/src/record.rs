//! The address point, the unit of indexed data.

use vstd::prelude::*;

verus! {

/// One geocoded address point.
///
/// `lat` and `lon` are degrees, held as the bit patterns of binary64 numbers:
/// the crate carries coordinates from the dataset to the spatial search and
/// never computes on them. `citycode` and `name` are the administrative code
/// and the address label; an empty string stands for an unknown one.
#[derive(Clone, Debug, PartialEq, Eq)]
pub struct MyPoint {
    pub lat: u64,
    pub lon: u64,
    pub citycode: String,
    pub name: String,
}

/// What a [`MyPoint`] holds, its strings as sequences of characters.
pub struct PointModel {
    pub lat: u64,
    pub lon: u64,
    pub citycode: Seq<char>,
    pub name: Seq<char>,
}

impl View for MyPoint {
    type V = PointModel;

    open spec fn view(&self) -> PointModel {
        PointModel { lat: self.lat, lon: self.lon, citycode: self.citycode@, name: self.name@ }
    }
}

/// The models of a sequence of points, in the same order.
pub open spec fn models(points: Seq<MyPoint>) -> Seq<PointModel> {
    points.map_values(|p: MyPoint| p@)
}

} // verus!
