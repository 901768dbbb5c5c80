//! Grammar tests of the whole-query parser.

use mercator_parser::queries;

fn query_parser() -> queries::QueryParser {
    queries::QueryParser::new()
}

#[test]
fn query() {
    let p = query_parser();

    let nifti = "nifti(inside(point{[0]}))";

    // Option is Empty
    assert!(p.parse("").is_ok());

    // Option is there
    assert!(p.parse(nifti).is_ok());

    // Too many element
    assert!(p.parse(format!("{} {}", nifti, nifti).as_str()).is_err());
}

#[test]
fn json_operator() {
    let p = query_parser();

    assert!(p.parse("json(true, inside(point{[0]}))").is_ok());
    assert!(p.parse("json(23, inside(point{[0]}))").is_ok());
    assert!(p.parse("json([23, 24], inside(point{[0]}))").is_ok());
    assert!(p.parse("json([23, count(.)], inside(point{[0]}))").is_ok());

    assert!(p.parse("json(true)").is_err());
    assert!(p.parse("json(true,)").is_err());

    assert!(p.parse("json(, inside(point{[0]}))").is_err());
    assert!(p.parse("json(inside(point{[0]}))").is_err());

    assert!(p.parse("json(true, point)").is_err());
}

#[test]
fn json_values() {
    let p = query_parser();

    assert!(p
        .parse(format!("json({}, inside(point{{[0]}}))", "true").as_str())
        .is_ok());
    assert!(p
        .parse(format!("json({}, inside(point{{[0]}}))", "false").as_str())
        .is_ok());
    assert!(p
        .parse(format!("json({}, inside(point{{[0]}}))", "null").as_str())
        .is_ok());

    // Incorrect capitalisation
    assert!(p
        .parse(format!("json({}, inside(point{{[0]}}))", "True").as_str())
        .is_err());
    assert!(p
        .parse(format!("json({}, inside(point{{[0]}}))", "False").as_str())
        .is_err());
    assert!(p
        .parse(format!("json({}, inside(point{{[0]}}))", "Null").as_str())
        .is_err());
}

#[test]
fn json_obj() {
    let p = query_parser();

    assert!(p
        .parse(format!("json({}, inside(point{{[0]}}))", "{}").as_str())
        .is_ok());
    assert!(p
        .parse(format!("json({}, inside(point{{[0]}}))", "{\"field\": 0}").as_str())
        .is_ok());
    assert!(p
        .parse(format!("json({}, inside(point{{[0]}}))", "{\"field\": 0, \"field1\": 1}").as_str())
        .is_ok());
    assert!(p
        .parse(format!("json({}, inside(point{{[0]}}))", "{\"field\": [0, 1]}").as_str())
        .is_ok());
    assert!(p
        .parse(format!("json({}, inside(point{{[0]}}))", "{\"field\": {\"field1\": 0}}").as_str())
        .is_ok());
    assert!(p
        .parse(
            format!(
                "json({}, inside(point{{[0]}}))",
                "{\"field\": [{\"field1\": 0}, {\"field1\": 1}]}"
            )
            .as_str()
        )
        .is_ok());
}

#[test]
fn json_pair() {
    let p = query_parser();

    assert!(p
        .parse(format!("json({}, inside(point{{[0]}}))", "{:}").as_str())
        .is_err());
    assert!(p
        .parse(format!("json({}, inside(point{{[0]}}))", "{field: 0}").as_str())
        .is_err());
    assert!(p
        .parse(format!("json({}, inside(point{{[0]}}))", "{0: 0}").as_str())
        .is_err());
    assert!(p
        .parse(format!("json({}, inside(point{{[0]}}))", "{\"0\": }").as_str())
        .is_err());
    assert!(p
        .parse(format!("json({}, inside(point{{[0]}}))", "{\"0\": 0 }").as_str())
        .is_ok());
    assert!(p
        .parse(format!("json({}, inside(point{{[0]}}))", "{\"field\": 0 }").as_str())
        .is_ok());
    assert!(p
        .parse(format!("json({}, inside(point{{[0]}}))", "{\"field\": \"0\" }").as_str())
        .is_ok());
}

#[test]
fn json_array() {
    let p = query_parser();

    assert!(p
        .parse(format!("json({}, inside(point{{[0]}}))", "[, 0]").as_str())
        .is_err());
    assert!(p
        .parse(format!("json({}, inside(point{{[0]}}))", "[]").as_str())
        .is_ok());
    assert!(p
        .parse(format!("json({}, inside(point{{[0]}}))", "[0]").as_str())
        .is_ok());
    assert!(p
        .parse(format!("json({}, inside(point{{[0]}}))", "[0, 1]").as_str())
        .is_ok());
    assert!(p
        .parse(
            format!("json({}, inside(point{{[0]}}))", "[{\"field\": 0}, {\"field\": 1}]").as_str()
        )
        .is_ok());
}

#[test]
fn aggregations() {
    let p = query_parser();

    // count ()
    assert!(p
        .parse(format!("json({}, inside(point{{[0]}}))", "count()").as_str())
        .is_err());
    assert!(p
        .parse(format!("json({}, inside(point{{[0]}}))", "count(distinct)").as_str())
        .is_err());
    assert!(p
        .parse(format!("json({}, inside(point{{[0]}}))", "count(.)").as_str())
        .is_ok());
    assert!(p
        .parse(format!("json({}, inside(point{{[0]}}))", "count(distinct .)").as_str())
        .is_ok());

    // sum ()
    assert!(p
        .parse(format!("json({}, inside(point{{[0]}}))", "sum()").as_str())
        .is_err());
    assert!(p
        .parse(format!("json({}, inside(point{{[0]}}))", "sum(.)").as_str())
        .is_ok());

    // min ()
    assert!(p
        .parse(format!("json({}, inside(point{{[0]}}))", "min()").as_str())
        .is_err());
    assert!(p
        .parse(format!("json({}, inside(point{{[0]}}))", "min(.)").as_str())
        .is_ok());

    // max ()
    assert!(p
        .parse(format!("json({}, inside(point{{[0]}}))", "max()").as_str())
        .is_err());
    assert!(p
        .parse(format!("json({}, inside(point{{[0]}}))", "max(.)").as_str())
        .is_ok());
}

#[test]
fn json_numbers() {
    let p = query_parser();

    // Integers
    assert!(p
        .parse(format!("json({}, inside(point{{[0]}}))", "0").as_str())
        .is_ok());
    assert!(p
        .parse(format!("json({}, inside(point{{[0]}}))", "+0").as_str())
        .is_err());
    assert!(p
        .parse(format!("json({}, inside(point{{[0]}}))", "-0").as_str())
        .is_ok());
    assert!(p
        .parse(format!("json({}, inside(point{{[0]}}))", "1").as_str())
        .is_ok());
    assert!(p
        .parse(format!("json({}, inside(point{{[0]}}))", "+1").as_str())
        .is_err());
    assert!(p
        .parse(format!("json({}, inside(point{{[0]}}))", "-1").as_str())
        .is_ok());

    // Floating point values
    assert!(p
        .parse(format!("json({}, inside(point{{[0]}}))", "0.0").as_str())
        .is_ok());
    assert!(p
        .parse(format!("json({}, inside(point{{[0]}}))", "+0.0").as_str())
        .is_err());
    assert!(p
        .parse(format!("json({}, inside(point{{[0]}}))", "-0.0").as_str())
        .is_ok());
    assert!(p
        .parse(format!("json({}, inside(point{{[0]}}))", "0.1").as_str())
        .is_ok());
    assert!(p
        .parse(format!("json({}, inside(point{{[0]}}))", "+0.01").as_str())
        .is_err());
    assert!(p
        .parse(format!("json({}, inside(point{{[0]}}))", "-0.01").as_str())
        .is_ok());
}
