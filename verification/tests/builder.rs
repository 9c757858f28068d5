use std::sync::Arc;

use arrow_buffer::NullBufferBuilder;
use geoarrow::builder::{check, MultiLineStringBuilder};
use geoarrow::capacity::MultiLineStringCapacity;
use geoarrow::coord::{CoordBufferBuilder, CoordType, Dimension};
use geoarrow::error::GeoArrowError;
use geoarrow::geometry::{Geometry, LineString, MultiLineString};
use geoarrow::metadata::{ArrayMetadata, Edges};
use geoarrow::offsets::OffsetsBuilder;
use geoarrow::polygon::PolygonBuilder;

fn c2(x: f64, y: f64) -> Vec<u64> {
    vec![x.to_bits(), y.to_bits()]
}

fn c3(x: f64, y: f64, z: f64) -> Vec<u64> {
    vec![x.to_bits(), y.to_bits(), z.to_bits()]
}

fn line(points: &[(f64, f64)]) -> LineString {
    points.iter().map(|&(x, y)| c2(x, y)).collect()
}

fn general_message(e: GeoArrowError) -> String {
    match e {
        GeoArrowError::General(m) => m,
        GeoArrowError::Overflow => panic!("expected a general error"),
    }
}

#[test]
fn new_builder_is_empty_and_interleaved() {
    let b = MultiLineStringBuilder::<2>::new();
    assert_eq!(b.len(), 0);
    assert_eq!(b.coord_type(), CoordType::Interleaved);
    assert!(b.metadata().crs.is_none());
    let a = b.finish();
    assert_eq!(a.len(), 0);
}

#[test]
fn pushed_values_read_back_from_the_finished_array() {
    let mut b = MultiLineStringBuilder::<2>::new();
    let m: MultiLineString = vec![line(&[(0.0, 0.0), (1.0, 1.0)]), line(&[(2.0, 2.0), (3.0, 3.0), (4.0, 5.0)])];
    b.push_multi_line_string(Some(&m)).unwrap();
    b.push_multi_line_string(None).unwrap();
    let ls = line(&[(7.5, -1.0)]);
    b.push_line_string(Some(&ls)).unwrap();
    assert_eq!(b.len(), 3);
    let a = b.finish();
    assert_eq!(a.len(), 3);
    assert!(a.is_valid(0));
    assert!(!a.is_valid(1));
    assert!(a.is_valid(2));
    assert_eq!(a.value(0), Some(m));
    assert_eq!(a.value(1), None);
    assert_eq!(a.value(2), Some(vec![ls]));
}

#[test]
fn offsets_follow_the_layout() {
    let mut b = MultiLineStringBuilder::<2>::new();
    let m: MultiLineString = vec![line(&[(0.0, 0.0), (1.0, 1.0)]), line(&[(2.0, 2.0), (3.0, 3.0), (4.0, 5.0)])];
    b.push_multi_line_string(Some(&m)).unwrap();
    b.push_multi_line_string(None).unwrap();
    b.push_line_string(Some(&line(&[(1.0, 2.0)]))).unwrap();
    let a = b.finish();
    assert_eq!(a.inner().geom_offsets(), &[0, 2, 2, 3]);
    assert_eq!(a.inner().ring_offsets(), &[0, 2, 5, 6]);
    assert_eq!(a.inner().coords().len(), 6);
    assert_eq!(a.inner().coords().coord(4), c2(4.0, 5.0));
}

#[test]
fn all_valid_array_reports_every_slot_valid() {
    let mut b = MultiLineStringBuilder::<2>::new();
    b.push_line_string(Some(&line(&[(0.0, 0.0)]))).unwrap();
    b.push_line_string(Some(&line(&[]))).unwrap();
    let a = b.finish();
    assert!(a.is_valid(0));
    assert!(a.is_valid(1));
    assert_eq!(a.value(1), Some(vec![vec![]]));
}

#[test]
fn separated_three_dimensional_coordinates() {
    let mut b = MultiLineStringBuilder::<3>::new_with_options(
        CoordType::Separated,
        Arc::new(ArrayMetadata { crs: Some("EPSG:4326".to_string()), edges: Some(Edges::Spherical) }),
    );
    let m: MultiLineString = vec![vec![c3(1.0, 2.0, 3.0), c3(4.0, 5.0, 6.0)]];
    b.push_multi_line_string(Some(&m)).unwrap();
    assert_eq!(b.coord_type(), CoordType::Separated);
    assert_eq!(b.metadata().crs.as_deref(), Some("EPSG:4326"));
    let a = b.finish();
    assert_eq!(a.inner().coords().dim(), Dimension::XYZ);
    assert_eq!(a.value(0), Some(m));
}

#[test]
fn a_builder_keeps_only_its_dimension_of_each_coordinate() {
    let mut b = MultiLineStringBuilder::<2>::new();
    let m: MultiLineString = vec![vec![c3(1.0, 2.0, 3.0)]];
    b.push_multi_line_string(Some(&m)).unwrap();
    let a = b.finish();
    assert_eq!(a.value(0), Some(vec![vec![c2(1.0, 2.0)]]));
}

#[test]
fn push_geometry_takes_line_kinds_and_refuses_others() {
    let mut b = MultiLineStringBuilder::<2>::new();
    let ls = line(&[(0.0, 1.0), (2.0, 3.0)]);
    b.push_geometry(Some(&Geometry::LineString(ls.clone()))).unwrap();
    let m: MultiLineString = vec![line(&[(5.0, 5.0)])];
    b.push_geometry(Some(&Geometry::MultiLineString(m.clone()))).unwrap();
    b.push_geometry(None).unwrap();
    let e = b.push_geometry(Some(&Geometry::Point)).unwrap_err();
    assert_eq!(general_message(e), "Incorrect type");
    assert_eq!(b.len(), 3);
    let a = b.finish();
    assert_eq!(a.value(0), Some(vec![ls]));
    assert_eq!(a.value(1), Some(m));
    assert_eq!(a.value(2), None);
}

#[test]
fn raw_geometry_offset_overflow_is_an_error() {
    let mut b = MultiLineStringBuilder::<2>::new();
    let r = b.try_push_geom_offset(i32::MAX as usize + 1);
    assert!(matches!(r, Err(GeoArrowError::Overflow)));
    assert_eq!(b.len(), 0);
    b.try_push_geom_offset(i32::MAX as usize).unwrap();
    assert_eq!(b.len(), 1);
    assert!(matches!(b.try_push_geom_offset(1), Err(GeoArrowError::Overflow)));
    assert!(matches!(
        b.push_line_string(Some(&line(&[(0.0, 0.0)]))),
        Err(GeoArrowError::Overflow)
    ));
    assert!(matches!(
        b.push_multi_line_string(Some(&vec![])),
        Ok(())
    ));
    assert_eq!(b.len(), 2);
}

#[test]
fn raw_pushes_build_a_valid_builder() {
    let mut b = MultiLineStringBuilder::<2>::new();
    b.try_push_geom_offset(1).unwrap();
    b.try_push_ring_offset(2).unwrap();
    b.push_coord(&c2(1.0, 1.0)).unwrap();
    b.push_coord(&c2(2.0, 2.0)).unwrap();
    let (coords, geom_offsets, ring_offsets, validity) = b.into_inner();
    let rebuilt =
        MultiLineStringBuilder::<2>::try_new(coords, geom_offsets, ring_offsets, validity, Arc::new(ArrayMetadata::default()))
            .unwrap();
    let a = rebuilt.finish();
    assert_eq!(a.value(0), Some(vec![vec![c2(1.0, 1.0), c2(2.0, 2.0)]]));
}

#[test]
fn try_new_reports_the_first_mismatch() {
    let meta = Arc::new(ArrayMetadata::default());
    let coords = CoordBufferBuilder::with_capacity(0, CoordType::Interleaved, Dimension::XY);
    let mut geoms = OffsetsBuilder::new();
    geoms.try_push_usize(1).unwrap();
    let e = MultiLineStringBuilder::<2>::try_new(
        coords,
        geoms,
        OffsetsBuilder::new(),
        NullBufferBuilder::new(0),
        meta.clone(),
    )
    .err()
    .unwrap();
    assert_eq!(general_message(e), "validity mask length must match the number of values");

    let coords = CoordBufferBuilder::with_capacity(0, CoordType::Interleaved, Dimension::XY);
    let mut rings = OffsetsBuilder::new();
    rings.try_push_usize(3).unwrap();
    let e = MultiLineStringBuilder::<2>::try_new(
        coords,
        OffsetsBuilder::new(),
        rings,
        NullBufferBuilder::new(0),
        meta.clone(),
    )
    .err()
    .unwrap();
    assert_eq!(general_message(e), "largest ring offset must match coords length");

    let coords = CoordBufferBuilder::with_capacity(0, CoordType::Interleaved, Dimension::XY);
    let mut geoms = OffsetsBuilder::new();
    geoms.try_push_usize(2).unwrap();
    let mut validity = NullBufferBuilder::new(1);
    validity.append(true);
    let e = MultiLineStringBuilder::<2>::try_new(coords, geoms, OffsetsBuilder::new(), validity, meta)
        .err()
        .unwrap();
    assert_eq!(general_message(e), "largest geometry offset must match ring offsets length");
}

#[test]
fn check_accepts_consistent_parts() {
    let coords = CoordBufferBuilder::with_capacity(0, CoordType::Separated, Dimension::XY);
    assert!(check(&coords, &OffsetsBuilder::new(), &OffsetsBuilder::new(), &NullBufferBuilder::new(0)).is_ok());
}

#[test]
fn constructors_from_slices() {
    let geoms: Vec<MultiLineString> = vec![
        vec![line(&[(0.0, 0.0), (1.0, 0.0)])],
        vec![line(&[(2.0, 2.0)]), line(&[(3.0, 3.0)])],
    ];
    let b = MultiLineStringBuilder::<2>::from_multi_line_strings(&geoms, None, Arc::new(ArrayMetadata::default()));
    assert_eq!(b.coord_type(), CoordType::Interleaved);
    let a = b.finish();
    assert_eq!(a.value(0), Some(geoms[0].clone()));
    assert_eq!(a.value(1), Some(geoms[1].clone()));

    let nullable: Vec<Option<MultiLineString>> = vec![None, Some(geoms[1].clone())];
    let b = MultiLineStringBuilder::<2>::from_nullable_multi_line_strings(
        &nullable,
        Some(CoordType::Separated),
        Arc::new(ArrayMetadata::default()),
    );
    assert_eq!(b.coord_type(), CoordType::Separated);
    let a = b.finish();
    assert_eq!(a.value(0), None);
    assert_eq!(a.value(1), Some(geoms[1].clone()));
}

#[test]
fn from_nullable_geometries_refuses_other_kinds() {
    let geoms = vec![
        Some(Geometry::LineString(line(&[(0.0, 0.0)]))),
        Some(Geometry::Polygon),
    ];
    let e = MultiLineStringBuilder::<2>::from_nullable_geometries(&geoms, None, Arc::new(ArrayMetadata::default()))
        .err()
        .unwrap();
    assert_eq!(general_message(e), "Incorrect type");

    let geoms = vec![None, Some(Geometry::LineString(line(&[(0.0, 0.0)])))];
    let b = MultiLineStringBuilder::<2>::from_nullable_geometries(&geoms, None, Arc::new(ArrayMetadata::default()))
        .unwrap();
    let a = b.finish();
    assert_eq!(a.value(0), None);
    assert_eq!(a.value(1), Some(vec![line(&[(0.0, 0.0)])]));
}

#[test]
fn extend_from_geometry_iter_stops_at_the_first_error() {
    let mut b = MultiLineStringBuilder::<2>::new();
    let geoms = vec![
        Some(Geometry::LineString(line(&[(0.0, 0.0)]))),
        Some(Geometry::MultiPolygon),
        Some(Geometry::LineString(line(&[(1.0, 1.0)]))),
    ];
    let e = b.extend_from_geometry_iter(&geoms).unwrap_err();
    assert_eq!(general_message(e), "Incorrect type");
    assert_eq!(b.len(), 1);
}

#[test]
fn capacity_counts_coordinates_line_strings_and_geometries() {
    let m: MultiLineString = vec![line(&[(0.0, 0.0), (1.0, 1.0)]), line(&[(2.0, 2.0)])];
    let geoms = vec![Some(&m), None, Some(&m)];
    let c = MultiLineStringCapacity::from_multi_line_strings(&geoms);
    assert_eq!(c.geom_capacity, 3);
    assert_eq!(c.ring_capacity, 4);
    assert_eq!(c.coord_capacity, 6);

    let mut b = MultiLineStringBuilder::<2>::with_capacity_from_iter(&geoms);
    b.reserve_from_iter(&geoms);
    b.reserve_exact_from_iter(&geoms);
    b.extend_from_iter(&geoms);
    let a = b.finish();
    assert_eq!(a.inner().geom_offsets().len(), 1 + c.geom_capacity);
    assert_eq!(a.inner().ring_offsets().len(), 1 + c.ring_capacity);
    assert_eq!(a.inner().coords().len(), c.coord_capacity);
}

#[test]
fn capacity_of_geometries() {
    let geoms = vec![
        Some(Geometry::LineString(line(&[(0.0, 0.0), (1.0, 1.0)]))),
        None,
        Some(Geometry::MultiLineString(vec![line(&[(0.0, 0.0)]), line(&[])])),
    ];
    let c = MultiLineStringCapacity::from_geometries(&geoms).unwrap();
    assert_eq!(c.geom_capacity, 3);
    assert_eq!(c.ring_capacity, 3);
    assert_eq!(c.coord_capacity, 3);
    let e = MultiLineStringCapacity::from_geometries(&[Some(Geometry::Rect)]).err().unwrap();
    assert_eq!(general_message(e), "Incorrect type");
}

#[test]
fn metadata_can_be_replaced() {
    let mut b = MultiLineStringBuilder::<2>::with_capacity(MultiLineStringCapacity::new(4, 2, 1));
    b.reserve(MultiLineStringCapacity::new(1, 1, 1));
    b.reserve_exact(MultiLineStringCapacity::new(1, 1, 1));
    b.set_metadata(Arc::new(ArrayMetadata { crs: Some("x".to_string()), edges: None }));
    assert_eq!(b.metadata().crs.as_deref(), Some("x"));
    let b2 = MultiLineStringBuilder::<2>::with_geom_capacity_and_options(
        3,
        CoordType::Separated,
        Arc::new(ArrayMetadata::default()),
    );
    assert_eq!(b2.coord_type(), CoordType::Separated);
    assert_eq!(b2.nulls().len(), 0);
}

#[test]
fn room_for_exact_reservations() {
    let b = MultiLineStringBuilder::<2>::new();
    assert!(b.can_reserve_exact(MultiLineStringCapacity::new(10, 10, 10)));
    assert!(!b.can_reserve_exact(MultiLineStringCapacity::new(usize::MAX, 0, 0)));
    assert!(!b.can_reserve_exact(MultiLineStringCapacity::new(0, 0, usize::MAX / 2)));
}

#[test]
fn default_builders() {
    let b2: MultiLineStringBuilder<2> = Default::default();
    let b3: MultiLineStringBuilder<3> = Default::default();
    assert_eq!(b2.len(), 0);
    assert_eq!(b3.len(), 0);
}

#[test]
fn polygon_builder_reads_the_same_layout() {
    let mut b = MultiLineStringBuilder::<2>::new();
    let ring = line(&[(0.0, 0.0), (1.0, 0.0), (1.0, 1.0), (0.0, 0.0)]);
    b.push_multi_line_string(Some(&vec![ring.clone()])).unwrap();
    b.push_multi_line_string(None).unwrap();
    let p = PolygonBuilder::<2>::from_multi_line_string_builder(b);
    assert_eq!(p.len(), 2);
    let a = p.finish();
    assert_eq!(a.value(0), Some(vec![ring]));
    assert_eq!(a.value(1), None);
    assert!(!a.is_valid(1));
}

#[test]
fn offsets_builder_basics() {
    let mut o = OffsetsBuilder::with_capacity(4);
    o.try_push_usize(3).unwrap();
    o.extend_constant(2);
    o.reserve(10);
    o.reserve_exact(10);
    assert_eq!(o.last(), 3);
    assert_eq!(o.len_proxy(), 3);
    assert!(matches!(o.try_push_usize(i32::MAX as usize), Err(GeoArrowError::Overflow)));
    assert_eq!(o.into_offsets(), vec![0, 3, 3, 3]);
}

#[test]
fn dimensions_by_size() {
    assert_eq!(Dimension::try_from_size(2), Some(Dimension::XY));
    assert_eq!(Dimension::try_from_size(3), Some(Dimension::XYZ));
    assert_eq!(Dimension::try_from_size(4), None);
    assert_eq!(Dimension::XYZ.size(), 3);
}

#[test]
fn null_slots_repeat_the_last_geometry_offset() {
    let nullable: Vec<Option<MultiLineString>> = vec![None, Some(vec![line(&[(1.0, 1.0)])]), None];
    let b = MultiLineStringBuilder::<2>::from_nullable_multi_line_strings(
        &nullable,
        None,
        Arc::new(ArrayMetadata::default()),
    );
    let a = b.finish();
    assert_eq!(a.inner().geom_offsets(), &[0, 0, 1, 1]);
    assert_eq!(a.inner().ring_offsets(), &[0, 1]);

    let geoms = vec![None, Some(Geometry::LineString(line(&[(0.0, 0.0), (1.0, 1.0)])))];
    let b = MultiLineStringBuilder::<2>::from_nullable_geometries(&geoms, None, Arc::new(ArrayMetadata::default()))
        .unwrap();
    let a = b.finish();
    assert_eq!(a.inner().geom_offsets(), &[0, 0, 1]);
    assert_eq!(a.inner().ring_offsets(), &[0, 2]);
}

#[test]
fn default_builders_have_empty_metadata() {
    let b: MultiLineStringBuilder<3> = Default::default();
    assert!(b.metadata().crs.is_none());
    assert!(b.metadata().edges.is_none());
}
