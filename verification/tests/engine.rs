//! Behavioral tests of the validator, predictor, evaluator and
//! executor against small in-memory stores.

use mercator_parser::queries::{FiltersParser, QueryParser};
use mercator_parser::{
    check_executable, Bag, CoreQueryParameters, Fp, LiteralNumber, LiteralPosition, Obj,
    Properties, QueryError, Shape, Space, Store, StoredObject,
};

fn fp(x: f64) -> Fp {
    Fp(x.to_bits())
}

fn obj(id: &str, kind: &str, coords: &[f64]) -> Obj {
    Obj {
        position: coords.iter().map(|c| fp(*c)).collect(),
        properties: Properties {
            id: id.to_string(),
            kind: kind.to_string(),
        },
    }
}

/// A store with one core, a two-dimensional universe and the given
/// objects.
fn store_2d(objects: Vec<StoredObject>) -> Store {
    Store {
        cores: vec!["test".to_string()],
        spaces: vec![Space {
            name: "Universe".to_string(),
            low: vec![fp(-100.0), fp(-100.0)],
            high: vec![fp(100.0), fp(100.0)],
            volume: fp(40000.0),
        }],
        objects,
    }
}

fn in_universe(o: Obj) -> StoredObject {
    StoredObject {
        space: "Universe".to_string(),
        object: o,
    }
}

fn total_objects(rs: &Vec<(String, Vec<Obj>)>) -> usize {
    rs.iter().map(|g| g.1.len()).sum()
}

fn positions_of(rs: &Vec<(String, Vec<Obj>)>) -> Vec<Vec<f64>> {
    let mut out = Vec::new();
    for (_, objs) in rs {
        for o in objs {
            out.push(o.position.iter().map(|b| f64::from_bits(b.0)).collect());
        }
    }
    out
}

fn run(query: &str, store: &Store) -> Result<Vec<(String, Vec<Obj>)>, QueryError> {
    let bag = FiltersParser::new().parse(query).expect("query must parse");
    assert!(bag.validate().is_ok(), "query must validate");
    assert!(check_executable(&bag), "query must be executable");
    let parameters = CoreQueryParameters {
        db: store,
        view_port: None,
    };
    bag.execute("test", &parameters)
}

#[test]
fn rectangle_volume_is_the_product_of_axis_lengths() {
    let rect = Shape::HyperRectangle(
        "Universe".to_string(),
        vec![
            LiteralPosition(vec![LiteralNumber::Int(0), LiteralNumber::Int(0)]),
            LiteralPosition(vec![LiteralNumber::Int(2), LiteralNumber::Int(3)]),
        ],
    );
    assert_eq!(f64::from_bits(rect.volume().0), 6.0);
}

#[test]
fn sphere_volume_follows_the_ball_recurrence() {
    let two_d = Shape::HyperSphere(
        "Universe".to_string(),
        LiteralPosition(vec![LiteralNumber::Int(0), LiteralNumber::Int(0)]),
        LiteralNumber::Int(1),
    );
    assert_eq!(f64::from_bits(two_d.volume().0), std::f64::consts::PI);

    let three_d = Shape::HyperSphere(
        "Universe".to_string(),
        LiteralPosition(vec![
            LiteralNumber::Int(0),
            LiteralNumber::Int(0),
            LiteralNumber::Int(0),
        ]),
        LiteralNumber::Int(1),
    );
    let v = f64::from_bits(three_d.volume().0);
    assert_eq!(v, 4.0 * std::f64::consts::PI / 3.0);
    assert!((v - 4.188790204786391).abs() < 1e-12);
}

#[test]
fn point_volume_is_the_smallest_nonzero_constant() {
    let point = Shape::Point(
        "Universe".to_string(),
        LiteralPosition(vec![LiteralNumber::Int(0)]),
    );
    assert_eq!(f64::from_bits(point.volume().0), f64::EPSILON);
}

#[test]
fn distinct_union_of_the_same_point_yields_one_result() {
    // One object at the origin; the union alone reports it twice, the
    // distinct wrapper collapses it back to one.
    let store = store_2d(vec![in_universe(obj("a", "t", &[0.0, 0.0]))]);

    let union = "union(inside(point{[0,0]}), inside(point{[0,0]}))";
    let both = run(union, &store).expect("union executes");
    assert_eq!(total_objects(&both), 2);

    let query = "distinct(union(inside(point{[0,0]}), inside(point{[0,0]})))";
    let bag = FiltersParser::new().parse(query).expect("parses");
    assert!(bag.validate().is_ok());
    assert!(check_executable(&bag));
    let parameters = CoreQueryParameters {
        db: &store,
        view_port: None,
    };
    let predicted = bag.predict(&store).expect("prediction succeeds");
    assert!(f64::from_bits(predicted.0) > 0.0);
    let result = bag.execute("test", &parameters).expect("executes");
    assert_eq!(total_objects(&result), 1);
}

#[test]
fn filter_keeps_only_the_matching_position() {
    let store = store_2d(vec![
        in_universe(obj("a", "t", &[0.0, 0.0])),
        in_universe(obj("b", "t", &[1.0, 1.0])),
    ]);
    let result = run(
        "filter(=(., [0,0]), inside(hyperrectangle{[-1,-1],[1,1]}))",
        &store,
    )
    .expect("executes");
    assert_eq!(positions_of(&result), vec![vec![0.0, 0.0]]);
}

#[test]
fn ternary_intersection_is_rejected_by_the_grammar() {
    let p = FiltersParser::new();
    assert!(p
        .parse("intersection(inside(point{[0]}), inside(point{[0]}), inside(point{[0]}))")
        .is_err());
}

#[test]
fn cross_space_set_operations_fail_validation() {
    let p = FiltersParser::new();
    let bag = p
        .parse("intersection(inside(point{[0], \"A\"}), inside(point{[0], \"B\"}))")
        .expect("parses");
    match bag.validate() {
        Err(QueryError::SpaceMismatch(l, r)) => {
            assert_eq!(l, "A");
            assert_eq!(r, "B");
        },
        other => panic!("expected a space mismatch, got {:?}", other),
    }
    let union = p
        .parse("union(inside(point{[0], \"A\"}), inside(point{[0], \"B\"}))")
        .expect("parses");
    assert!(matches!(
        union.validate(),
        Err(QueryError::SpaceMismatch(_, _))
    ));
}

#[test]
fn coercion_between_operand_types_is_one_directional() {
    let p = FiltersParser::new();
    // A binary64 operand accepts an integer one...
    let ok = p
        .parse("intersection(inside(point{[0.5]}), inside(point{[0]}))")
        .expect("parses");
    assert!(ok.validate().is_ok());
    // ... but an integer operand does not accept a binary64 one.
    let bad = p
        .parse("intersection(inside(point{[0]}), inside(point{[0.5]}))")
        .expect("parses");
    assert!(matches!(bad.validate(), Err(QueryError::TypeMismatch(_, _))));
}

#[test]
fn rectangle_corners_must_agree_in_type() {
    let p = FiltersParser::new();
    let bag = p
        .parse("inside(hyperrectangle{[0], [1.5, 2.5]})")
        .expect("parses");
    assert!(matches!(
        bag.validate(),
        Err(QueryError::CornerTypeMismatch(_, _))
    ));
}

#[test]
fn four_corner_rectangles_are_not_implemented() {
    let p = FiltersParser::new();
    let bag = p
        .parse("inside(hyperrectangle{[0], [1], [2], [3]})")
        .expect("parses");
    assert!(matches!(bag.validate(), Err(QueryError::NotImplemented)));
    // Execution rejects the same arity with its own error.
    let store = store_2d(vec![]);
    let parameters = CoreQueryParameters {
        db: &store,
        view_port: None,
    };
    assert!(matches!(
        bag.execute("test", &parameters),
        Err(QueryError::UnsupportedCorners(4))
    ));
}

#[test]
fn nifti_constructs_are_not_implemented() {
    let p = FiltersParser::new();
    let bag = p
        .parse("inside(nifti{uri(\"http://a.nifti.file\"), \"Universe\"})")
        .expect("parses");
    assert!(matches!(bag.validate(), Err(QueryError::NotImplemented)));
    let store = store_2d(vec![]);
    let parameters = CoreQueryParameters {
        db: &store,
        view_port: None,
    };
    assert!(matches!(
        bag.execute("test", &parameters),
        Err(QueryError::InsideNifti)
    ));
    let out = Bag::Outside(Shape::Nifti("Universe".to_string()));
    assert!(matches!(
        out.execute("test", &parameters),
        Err(QueryError::OutsideNifti)
    ));
}

#[test]
fn unknown_identifiers_are_reported() {
    let store = store_2d(vec![]);
    let parameters = CoreQueryParameters {
        db: &store,
        view_port: None,
    };
    let p = FiltersParser::new();
    let bag = p.parse("inside(point{[0,0], \"Nowhere\"})").expect("parses");
    assert!(check_executable(&bag));
    assert!(matches!(
        bag.execute("test", &parameters),
        Err(QueryError::UnknownSpace(_))
    ));
    let ok = p.parse("inside(point{[0,0]})").expect("parses");
    assert!(matches!(
        ok.execute("nosuchcore", &parameters),
        Err(QueryError::UnknownCore(_))
    ));
}

#[test]
fn positions_must_match_their_space_dimension() {
    let store = store_2d(vec![]);
    let parameters = CoreQueryParameters {
        db: &store,
        view_port: None,
    };
    let bag = FiltersParser::new().parse("inside(point{[0]})").expect("parses");
    assert!(matches!(
        bag.execute("test", &parameters),
        Err(QueryError::DimensionMismatch(_, 2, 1))
    ));
}

#[test]
fn inside_and_outside_are_disjoint_off_the_surface() {
    // An object well inside the box, one well outside it, and one
    // exactly on its surface.
    let store = store_2d(vec![
        in_universe(obj("in", "t", &[0.5, 0.5])),
        in_universe(obj("out", "t", &[2.0, 2.0])),
        in_universe(obj("edge", "t", &[1.0, 1.0])),
    ]);
    let inside = run("inside(hyperrectangle{[0,0],[1,1]})", &store).expect("executes");
    let outside = run("outside(hyperrectangle{[0,0],[1,1]})", &store).expect("executes");
    let ins = positions_of(&inside);
    let outs = positions_of(&outside);
    assert!(ins.contains(&vec![0.5, 0.5]));
    assert!(!outs.contains(&vec![0.5, 0.5]));
    assert!(outs.contains(&vec![2.0, 2.0]));
    assert!(!ins.contains(&vec![2.0, 2.0]));
    // The surface sits on the shell the inward nudge opens: the box
    // query is closed, so the edge point is inside, and the nudged
    // probe no longer covers it, so it is outside as well.  Off the
    // shell the two sets are disjoint.
    assert!(ins.contains(&vec![1.0, 1.0]));
    assert!(outs.contains(&vec![1.0, 1.0]));
}

#[test]
fn union_concatenates_without_deduplication() {
    let store = store_2d(vec![
        in_universe(obj("a", "t", &[0.0, 0.0])),
        in_universe(obj("b", "t", &[1.0, 1.0])),
    ]);
    let result = run(
        "union(inside(hyperrectangle{[-1,-1],[2,2]}), inside(point{[0,0]}))",
        &store,
    )
    .expect("executes");
    // Two objects from the box, one of them again from the point.
    assert_eq!(total_objects(&result), 3);
}

#[test]
fn intersection_keeps_positions_present_on_both_sides() {
    let store = store_2d(vec![
        in_universe(obj("a", "t", &[0.0, 0.0])),
        in_universe(obj("b", "t", &[1.0, 1.0])),
        in_universe(obj("c", "t", &[2.0, 2.0])),
    ]);
    let result = run(
        "intersection(inside(hyperrectangle{[-1,-1],[1,1]}), inside(hyperrectangle{[0,0],[2,2]}))",
        &store,
    )
    .expect("executes");
    let mut got = positions_of(&result);
    got.sort_by(|a, b| a.partial_cmp(b).unwrap());
    assert_eq!(got, vec![vec![0.0, 0.0], vec![1.0, 1.0]]);
}

#[test]
fn complement_is_always_taken_against_the_universe() {
    let store = store_2d(vec![
        in_universe(obj("a", "t", &[0.0, 0.0])),
        in_universe(obj("b", "t", &[5.0, 5.0])),
    ]);
    let result = run("complement(inside(point{[0,0]}))", &store).expect("executes");
    assert_eq!(positions_of(&result), vec![vec![5.0, 5.0]]);
}

#[test]
fn string_comparisons_resolve_reserved_selectors() {
    let store = store_2d(vec![
        in_universe(obj("alpha", "neuron", &[0.0, 0.0])),
        in_universe(obj("beta", "NEURON", &[1.0, 1.0])),
    ]);
    // Exact comparison on the identifier.
    let by_id = run(
        "filter(=(str_cmp(.id, \"alpha\"), [0]), inside(hyperrectangle{[-1,-1],[2,2]}))",
        &store,
    )
    .expect("executes");
    assert_eq!(positions_of(&by_id), vec![vec![0.0, 0.0]]);
    // Case-folded comparison on the kind keeps both.
    let by_kind = run(
        "filter(=(str_cmp_ignore_case(.type, \"Neuron\"), [0]), inside(hyperrectangle{[-1,-1],[2,2]}))",
        &store,
    )
    .expect("executes");
    assert_eq!(total_objects(&by_kind), 2);
    // And the exact comparison tells the two kinds apart.
    let exact = run(
        "filter(=(str_cmp(.type, \"neuron\"), [0]), inside(hyperrectangle{[-1,-1],[2,2]}))",
        &store,
    )
    .expect("executes");
    assert_eq!(positions_of(&exact), vec![vec![0.0, 0.0]]);
}

#[test]
fn length_order_compares_squared_lengths() {
    let store = store_2d(vec![
        in_universe(obj("near", "t", &[1.0, 1.0])),
        in_universe(obj("far", "t", &[3.0, 3.0])),
    ]);
    let below = run(
        "filter(<(., [2,2]), inside(hyperrectangle{[0,0],[4,4]}))",
        &store,
    )
    .expect("executes");
    assert_eq!(positions_of(&below), vec![vec![1.0, 1.0]]);
    let above = run(
        "filter(>(., [2,2]), inside(hyperrectangle{[0,0],[4,4]}))",
        &store,
    )
    .expect("executes");
    assert_eq!(positions_of(&above), vec![vec![3.0, 3.0]]);
}

#[test]
fn unicode_escapes_decode_in_space_names() {
    // The space name written with an escape matches the store's "A".
    let mut store = store_2d(vec![]);
    store.spaces.push(Space {
        name: "A".to_string(),
        low: vec![fp(0.0)],
        high: vec![fp(10.0)],
        volume: fp(10.0),
    });
    store.objects.push(StoredObject {
        space: "A".to_string(),
        object: obj("x", "t", &[1.0]),
    });
    let result = run("inside(point{[1], \"\\u0041\"})", &store).expect("executes");
    assert_eq!(total_objects(&result), 1);
}

#[test]
fn label_lookups_bypass_geometry() {
    let store = store_2d(vec![
        in_universe(obj("wanted", "t", &[0.0, 0.0])),
        in_universe(obj("other", "t", &[1.0, 1.0])),
    ]);
    let bag = Bag::Inside(Shape::Label("Universe".to_string(), "wanted".to_string()));
    let parameters = CoreQueryParameters {
        db: &store,
        view_port: None,
    };
    let result = bag.execute("test", &parameters).expect("executes");
    assert_eq!(positions_of(&result), vec![vec![0.0, 0.0]]);
}

#[test]
fn sphere_queries_use_the_closed_ball() {
    let store = store_2d(vec![
        in_universe(obj("center", "t", &[0.0, 0.0])),
        in_universe(obj("rim", "t", &[1.0, 0.0])),
        in_universe(obj("beyond", "t", &[2.0, 0.0])),
    ]);
    let inside = run("inside(hypersphere{[0,0], 1})", &store).expect("executes");
    let mut got = positions_of(&inside);
    got.sort_by(|a, b| a.partial_cmp(b).unwrap());
    assert_eq!(got, vec![vec![0.0, 0.0], vec![1.0, 0.0]]);
    let outside = run("outside(hypersphere{[0,0], 1})", &store).expect("executes");
    let outs = positions_of(&outside);
    assert!(outs.contains(&vec![2.0, 0.0]));
    assert!(!outs.contains(&vec![0.0, 0.0]));
}

#[test]
fn empty_groups_are_dropped_by_filters() {
    let store = store_2d(vec![in_universe(obj("a", "t", &[0.0, 0.0]))]);
    let result = run(
        "filter(=(., [9,9]), inside(hyperrectangle{[-1,-1],[1,1]}))",
        &store,
    )
    .expect("executes");
    assert_eq!(result.len(), 0);
}

#[test]
fn filter_without_inner_bag_scans_the_universe() {
    let store = store_2d(vec![
        in_universe(obj("a", "t", &[0.0, 0.0])),
        in_universe(obj("b", "t", &[3.0, 4.0])),
    ]);
    let result = run("filter(=(., [3,4]))", &store).expect("executes");
    assert_eq!(positions_of(&result), vec![vec![3.0, 4.0]]);
}

#[test]
fn viewport_clips_results_to_the_configured_box() {
    let store = store_2d(vec![
        in_universe(obj("a", "t", &[0.0, 0.0])),
        in_universe(obj("b", "t", &[5.0, 5.0])),
    ]);
    let bag = FiltersParser::new()
        .parse("inside(hyperrectangle{[-10,-10],[10,10]})")
        .expect("parses");
    let clipped = Bag::ViewPort(Box::new(bag));
    assert!(check_executable(&clipped));
    let parameters = CoreQueryParameters {
        db: &store,
        view_port: Some((vec![fp(-1.0), fp(-1.0)], vec![fp(1.0), fp(1.0)])),
    };
    let result = clipped.execute("test", &parameters).expect("executes");
    assert_eq!(positions_of(&result), vec![vec![0.0, 0.0]]);
}

#[test]
fn json_projections_pass_their_bag_through() {
    let store = store_2d(vec![in_universe(obj("a", "t", &[0.0, 0.0]))]);
    let parameters = CoreQueryParameters {
        db: &store,
        view_port: None,
    };
    let q = QueryParser::new()
        .parse("json(count(.), inside(point{[0,0]}))")
        .expect("parses")
        .expect("is a projection");
    assert!(q.validate().is_ok());
    let result = q.execute("test", &parameters).expect("executes");
    assert_eq!(total_objects(&result), 1);
    assert_eq!(q.space(), "Universe");
}

#[test]
fn nifti_projections_are_not_implemented() {
    let store = store_2d(vec![]);
    let parameters = CoreQueryParameters {
        db: &store,
        view_port: None,
    };
    let q = QueryParser::new()
        .parse("nifti(inside(point{[0,0]}))")
        .expect("parses")
        .expect("is a projection");
    assert!(matches!(q.validate(), Err(QueryError::NotImplemented)));
    assert!(matches!(
        q.execute("test", &parameters),
        Err(QueryError::ProjectionNifti)
    ));
}

#[test]
fn objects_in_different_spaces_are_never_duplicates() {
    // The same identifier and position in two spaces: distinct keeps
    // both, since de-duplication works within each space independently.
    let mut store = store_2d(vec![in_universe(obj("same", "t", &[0.0, 0.0]))]);
    store.spaces.push(Space {
        name: "Other".to_string(),
        low: vec![fp(-10.0), fp(-10.0)],
        high: vec![fp(10.0), fp(10.0)],
        volume: fp(400.0),
    });
    store.objects.push(StoredObject {
        space: "Other".to_string(),
        object: obj("same", "t", &[0.0, 0.0]),
    });
    let result = run(
        "distinct(bag{inside(point{[0,0]}), inside(point{[0,0], \"Other\"})})",
        &store,
    )
    .expect("executes");
    assert_eq!(result.len(), 2);
    assert_eq!(total_objects(&result), 2);
}

#[test]
fn the_registry_reads_the_catalog() {
    let store = store_2d(vec![]);
    let space_name = mercator_parser::name();
    assert_eq!(space_name, "Universe");

    let t = mercator_parser::get_type(&store, &space_name);
    match t {
        mercator_parser::LiteralTypes::Vector(dims) => assert_eq!(dims.len(), 2),
        other => panic!("expected a vector type, got {:?}", other),
    }
    let unknown = mercator_parser::get_type(&store, &"Nowhere".to_string());
    match unknown {
        mercator_parser::LiteralTypes::Vector(dims) => assert_eq!(dims.len(), 0),
        other => panic!("expected an empty vector type, got {:?}", other),
    }

    let (low, high) = mercator_parser::bounding_box(&store, &space_name);
    assert_eq!(low.len(), 2);
    assert_eq!(f64::from_bits(high[0].0), 100.0);

    let volume = mercator_parser::max_volume(&store, &space_name);
    assert_eq!(f64::from_bits(volume.0), 40000.0);
    let none = mercator_parser::max_volume(&store, &"Nowhere".to_string());
    assert_eq!(f64::from_bits(none.0), 0.0);
}

#[test]
fn the_filter_builder_supplies_the_universe_scan() {
    let store = store_2d(vec![]);
    let pred = mercator_parser::Predicate::Equal(
        mercator_parser::Position::Literal(LiteralPosition(vec![LiteralNumber::Int(0)])),
        LiteralPosition(vec![LiteralNumber::Int(0)]),
    );
    let built = mercator_parser::get_filter(pred, None, &store);
    match built {
        Bag::Filter(Some(_), Some(inner)) => match *inner {
            Bag::Inside(Shape::HyperRectangle(space, corners)) => {
                assert_eq!(space, "Universe");
                assert_eq!(corners.len(), 2);
            },
            other => panic!("expected the universe box, got {:?}", other),
        },
        other => panic!("expected a filter with an inner bag, got {:?}", other),
    }
}

#[test]
fn direct_database_entry_points_are_not_wired_yet() {
    assert!(matches!(
        mercator_parser::get_all(&"Universe".to_string()),
        Err(QueryError::NotImplemented)
    ));
    assert!(matches!(
        mercator_parser::get_by_position(
            &"Universe".to_string(),
            &LiteralPosition(vec![LiteralNumber::Int(0)])
        ),
        Err(QueryError::NotImplemented)
    ));
    assert!(matches!(
        mercator_parser::get_by_bounding_box(&"Universe".to_string(), &Vec::new()),
        Err(QueryError::NotImplemented)
    ));
}

#[test]
fn decimal_literals_encode_to_their_binary64_values() {
    // The queried literal must land on exactly the bits the store holds.
    let store = store_2d(vec![in_universe(obj("a", "t", &[0.5, -2.25]))]);
    let hit = run("inside(point{[0.5, -2.25]})", &store).expect("executes");
    assert_eq!(total_objects(&hit), 1);
    let near_miss = run("inside(point{[0.5, -2.26]})", &store).expect("executes");
    assert_eq!(total_objects(&near_miss), 0);
    let exponent_form = run("inside(point{[5e-1, -225e-2]})", &store).expect("executes");
    assert_eq!(total_objects(&exponent_form), 1);
}
