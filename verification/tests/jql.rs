use jira_client::jql::{
    escape_text_field, JQLClause, JQLDate, JQLOrderBy, JQLOrderByPart, JQLOrdering, JQLStatement,
    JQLValue, SerializableToJQL, ValidationError,
};

fn text(s: &str) -> JQLValue {
    JQLValue::Text(s.to_owned())
}

#[test]
fn escape_passes_plain_text_through() {
    assert_eq!(escape_text_field("foo.bar@example.com"), "\"foo.bar@example.com\"".to_owned());
}

#[test]
fn escape_prefixes_reserved_characters_with_two_backslashes() {
    assert_eq!(escape_text_field("[foo]:(bar)"), "\"\\\\[foo\\\\]\\\\:\\\\(bar\\\\)\"".to_owned());
}

#[test]
fn escape_prefixes_quote_with_one_backslash() {
    assert_eq!(escape_text_field("a\"b"), "\"a\\\"b\"");
}

#[test]
fn escape_empty_string_is_quote_pair() {
    assert_eq!(escape_text_field(""), "\"\"");
}

#[test]
fn escape_handles_every_reserved_character() {
    assert_eq!(escape_text_field("+"), "\"\\\\+\"");
    assert_eq!(escape_text_field("-"), "\"\\\\-\"");
    assert_eq!(escape_text_field("&"), "\"\\\\&\"");
    assert_eq!(escape_text_field("|"), "\"\\\\|\"");
    assert_eq!(escape_text_field("!"), "\"\\\\!\"");
    assert_eq!(escape_text_field("("), "\"\\\\(\"");
    assert_eq!(escape_text_field(")"), "\"\\\\)\"");
    assert_eq!(escape_text_field("{"), "\"\\\\{\"");
    assert_eq!(escape_text_field("}"), "\"\\\\}\"");
    assert_eq!(escape_text_field("["), "\"\\\\[\"");
    assert_eq!(escape_text_field("]"), "\"\\\\]\"");
    assert_eq!(escape_text_field("^"), "\"\\\\^\"");
    assert_eq!(escape_text_field("~"), "\"\\\\~\"");
    assert_eq!(escape_text_field("*"), "\"\\\\*\"");
    assert_eq!(escape_text_field("?"), "\"\\\\?\"");
    assert_eq!(escape_text_field("\\"), "\"\\\\\\\"");
    assert_eq!(escape_text_field(":"), "\"\\\\:\"");
}

#[test]
fn escape_passes_non_ascii_through() {
    assert_eq!(escape_text_field("héllo wörld"), "\"héllo wörld\"");
}

#[test]
fn text_value_serializes_escaped() {
    assert_eq!(text("Hello world").serialize_to_jql(), "\"Hello world\"");
    assert_eq!(text("^latest").serialize_to_jql(), "\"\\\\^latest\"");
}

#[test]
fn date_value_serializes_zero_padded() {
    let d = JQLDate::new(2023, 1, 5).unwrap();
    assert_eq!(JQLValue::Date(d).serialize_to_jql(), "\"2023-01-05\"");
    let d = JQLDate::new(31, 12, 31).unwrap();
    assert_eq!(JQLValue::Date(d).serialize_to_jql(), "\"0031-12-31\"");
}

#[test]
fn date_accessors_return_the_parts() {
    let d = JQLDate::new(2024, 2, 29).unwrap();
    assert_eq!(d.year(), 2024);
    assert_eq!(d.month(), 2);
    assert_eq!(d.day(), 29);
}

#[test]
fn date_construction_rejects_invalid_dates() {
    assert_eq!(JQLDate::new(2023, 13, 1), Err(ValidationError::InvalidDate));
    assert_eq!(JQLDate::new(2023, 0, 1), Err(ValidationError::InvalidDate));
    assert_eq!(JQLDate::new(2023, 1, 0), Err(ValidationError::InvalidDate));
    assert_eq!(JQLDate::new(2023, 1, 32), Err(ValidationError::InvalidDate));
    assert_eq!(JQLDate::new(2023, 4, 31), Err(ValidationError::InvalidDate));
    assert_eq!(JQLDate::new(10000, 1, 1), Err(ValidationError::InvalidDate));
}

#[test]
fn date_construction_follows_leap_years() {
    assert!(JQLDate::new(2024, 2, 29).is_ok());
    assert_eq!(JQLDate::new(2023, 2, 29), Err(ValidationError::InvalidDate));
    assert!(JQLDate::new(2000, 2, 29).is_ok());
    assert_eq!(JQLDate::new(1900, 2, 29), Err(ValidationError::InvalidDate));
}

#[test]
fn validation_error_describes_itself() {
    assert_eq!(ValidationError::InvalidDate.message(), "invalid calendar date");
}

#[test]
fn membership_of_nothing_serializes_to_empty_parens() {
    let clause = JQLClause::In("project".to_owned(), vec![]);
    assert_eq!(clause.serialize_to_jql(), "project IN ()");
}

#[test]
fn membership_lists_values_in_order() {
    let clause = JQLClause::In("project".to_owned(), vec![text("PE"), text("SRE")]);
    assert_eq!(clause.serialize_to_jql(), "project IN (\"PE\", \"SRE\")");
}

#[test]
fn membership_of_one_value() {
    let clause = JQLClause::In("project".to_owned(), vec![text("SRE")]);
    assert_eq!(clause.serialize_to_jql(), "project IN (\"SRE\")");
}

#[test]
fn comparison_clauses_serialize_with_their_operators() {
    let eq = JQLClause::Equals("status".to_owned(), text("Done"));
    assert_eq!(eq.serialize_to_jql(), "status = \"Done\"");
    let d = JQLDate::new(2022, 6, 13).unwrap();
    let ge = JQLClause::GreaterThanEquals("created".to_owned(), JQLValue::Date(d));
    assert_eq!(ge.serialize_to_jql(), "created >= \"2022-06-13\"");
    let le = JQLClause::LessThanEquals("updated".to_owned(), text("x"));
    assert_eq!(le.serialize_to_jql(), "updated <= \"x\"");
}

#[test]
fn empty_conjunction_serializes_to_empty_parens() {
    assert_eq!(JQLClause::And(vec![]).serialize_to_jql(), "()");
}

#[test]
fn singleton_conjunction_wraps_its_clause() {
    let clause = JQLClause::And(vec![Box::new(JQLClause::In(
        "project".to_owned(),
        vec![text("SRE")],
    ))]);
    assert_eq!(clause.serialize_to_jql(), "(project IN (\"SRE\"))");
}

#[test]
fn conjunction_joins_clauses_with_and() {
    let clause = JQLClause::And(vec![
        Box::new(JQLClause::In("project".to_owned(), vec![text("SRE")])),
        Box::new(JQLClause::In("labels".to_owned(), vec![text("v1"), text("v2")])),
    ]);
    assert_eq!(clause.serialize_to_jql(), "(project IN (\"SRE\") AND labels IN (\"v1\", \"v2\"))");
}

#[test]
fn nested_conjunctions_serialize_recursively() {
    let inner = JQLClause::And(vec![Box::new(JQLClause::Equals(
        "status".to_owned(),
        text("Done"),
    ))]);
    let outer = JQLClause::And(vec![
        Box::new(inner),
        Box::new(JQLClause::In("project".to_owned(), vec![text("PE")])),
    ]);
    assert_eq!(outer.serialize_to_jql(), "((status = \"Done\") AND project IN (\"PE\"))");
}

#[test]
fn statement_without_ordering_is_the_clause_alone() {
    let statement = JQLStatement {
        clause: JQLClause::And(vec![
            Box::new(JQLClause::In("project".to_owned(), vec![text("SRE")])),
            Box::new(JQLClause::In("labels".to_owned(), vec![text("v1"), text("v2")])),
        ]),
        order_by: None,
    };
    assert_eq!(
        statement.serialize_to_jql(),
        "(project IN (\"SRE\") AND labels IN (\"v1\", \"v2\"))"
    );
}

#[test]
fn statement_appends_non_empty_ordering() {
    let statement = JQLStatement {
        clause: JQLClause::In("project".to_owned(), vec![text("SRE")]),
        order_by: Some(JQLOrderBy(vec![JQLOrderByPart {
            field: "createdDate".to_owned(),
            ordering: Some(JQLOrdering::Desc),
        }])),
    };
    assert_eq!(
        statement.serialize_to_jql(),
        "project IN (\"SRE\") ORDER BY createdDate DESC"
    );
}

#[test]
fn statement_with_empty_ordering_matches_no_ordering() {
    let clause = JQLClause::In("project".to_owned(), vec![text("SRE")]);
    let with_empty = JQLStatement {
        clause: clause.clone(),
        order_by: Some(JQLOrderBy(vec![])),
    };
    let without = JQLStatement { clause, order_by: None };
    assert_eq!(with_empty.serialize_to_jql(), without.serialize_to_jql());
}

#[test]
fn order_by_parts_serialize_field_and_optional_direction() {
    let bare = JQLOrderByPart { field: "createdDate".to_owned(), ordering: None };
    assert_eq!(bare.serialize_to_jql(), "createdDate");
    let asc = JQLOrderByPart { field: "rank".to_owned(), ordering: Some(JQLOrdering::Asc) };
    assert_eq!(asc.serialize_to_jql(), "rank ASC");
    assert_eq!(JQLOrdering::Asc.serialize_to_jql(), "ASC");
    assert_eq!(JQLOrdering::Desc.serialize_to_jql(), "DESC");
}

#[test]
fn order_by_joins_parts_in_tie_break_order() {
    let order_by = JQLOrderBy(vec![
        JQLOrderByPart { field: "priority".to_owned(), ordering: Some(JQLOrdering::Desc) },
        JQLOrderByPart { field: "createdDate".to_owned(), ordering: None },
    ]);
    assert_eq!(order_by.serialize_to_jql(), "ORDER BY priority DESC, createdDate");
}

#[test]
fn serializing_twice_yields_identical_output() {
    let statement = JQLStatement {
        clause: JQLClause::And(vec![
            Box::new(JQLClause::Equals("status".to_owned(), text("Done"))),
            Box::new(JQLClause::In("labels".to_owned(), vec![text("a"), text("b")])),
        ]),
        order_by: Some(JQLOrderBy(vec![JQLOrderByPart {
            field: "createdDate".to_owned(),
            ordering: Some(JQLOrdering::Desc),
        }])),
    };
    assert_eq!(statement.serialize_to_jql(), statement.serialize_to_jql());
}

#[test]
fn clone_reserializes_byte_identically() {
    let statement = JQLStatement {
        clause: JQLClause::And(vec![
            Box::new(JQLClause::In("project".to_owned(), vec![text("PE"), text("SRE")])),
            Box::new(JQLClause::GreaterThanEquals(
                "created".to_owned(),
                JQLValue::Date(JQLDate::new(2022, 5, 10).unwrap()),
            )),
        ]),
        order_by: Some(JQLOrderBy(vec![JQLOrderByPart {
            field: "rank".to_owned(),
            ordering: Some(JQLOrdering::Asc),
        }])),
    };
    let copy = statement.clone();
    assert_eq!(copy.serialize_to_jql(), statement.serialize_to_jql());
}
