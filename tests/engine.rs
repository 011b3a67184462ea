//! Behaviour of the clause generators on literal schemas.
use sql_tool::{
    generate_placeholder, select_clause, set_and_where_clause, set_clause, values_clause,
    where_clause, Clause, Dialect, Directive, FieldDescriptor, GenError, GlobalConfig,
};

fn strings(items: &[&str]) -> Vec<String> {
    items.iter().map(|s| s.to_string()).collect()
}

fn config(database: &str) -> GlobalConfig {
    GlobalConfig::new(Some(database)).unwrap()
}

fn where_field(name: &str, optional: bool, d: Directive) -> FieldDescriptor {
    FieldDescriptor::new(name, optional).with_where(d)
}

fn set_field(name: &str, optional: bool, d: Directive) -> FieldDescriptor {
    FieldDescriptor::new(name, optional).with_set(d)
}

#[test]
fn select_ignores_and_renames() {
    let schema = vec![
        FieldDescriptor::new("field1", false),
        FieldDescriptor::new("field2", false).with_select(Directive::new().ignored()),
        FieldDescriptor::new("field3", false).with_select(Directive::new().renamed("renamed")),
    ];
    assert_eq!(select_clause(&schema), strings(&["field1", "renamed"]));
}

#[test]
fn ignore_wins_over_rename() {
    let schema = vec![FieldDescriptor::new("a", false)
        .with_select(Directive::new().renamed("b").ignored())];
    assert_eq!(select_clause(&schema), Vec::<String>::new());
}

#[test]
fn postgres_values_with_fixed_index() {
    let schema = vec![
        FieldDescriptor::new("a", false),
        FieldDescriptor::new("b", false).with_values(Directive::new().ignored()),
        FieldDescriptor::new("c", false).with_values(Directive::new().with_index(4)),
    ];
    let clause = values_clause(&schema, &config("postgres"));
    assert_eq!(clause.fragments, strings(&["$1", "$4"]));
    assert_eq!(clause.next_index, 2);
}

#[test]
fn mysql_values_are_unnumbered() {
    let schema = vec![
        FieldDescriptor::new("a", false),
        FieldDescriptor::new("b", false).with_values(Directive::new().ignored()),
        FieldDescriptor::new("c", false).with_values(Directive::new().with_index(4)),
    ];
    assert_eq!(values_clause(&schema, &config("mysql")).fragments, strings(&["?", "?"]));
    assert_eq!(values_clause(&schema, &config("mariadb")).fragments, strings(&["?", "?"]));
    assert_eq!(values_clause(&schema, &config("sqlite")).fragments, strings(&["?", "?"]));
}

#[test]
fn values_count_from_start_index() {
    let schema = vec![
        FieldDescriptor::new("a", false),
        FieldDescriptor::new("b", false),
        FieldDescriptor::new("c", false),
    ];
    let clause = values_clause(&schema, &config("postgres").with_start_index(5));
    assert_eq!(clause.fragments, strings(&["$5", "$6", "$7"]));
    assert_eq!(clause.next_index, 8);
}

#[test]
fn placeholders_render_multi_digit_numbers() {
    let schema = vec![
        FieldDescriptor::new("a", false).with_values(Directive::new().with_index(1234567)),
        FieldDescriptor::new("b", false).with_values(Directive::new().with_index(0)),
        FieldDescriptor::new("c", false),
    ];
    let clause = values_clause(&schema, &config("mssql").with_start_index(10));
    assert_eq!(clause.fragments, strings(&["@p1234567", "@p0", "@p10"]));
}

#[test]
fn where_scenario_with_all_directives() {
    let schema = vec![
        where_field("field1", false, Directive::new().renamed("id")),
        where_field("field2", true, Directive::new()),
        where_field("field3", false, Directive::new().ignored()),
        where_field("field4", true, Directive::new()),
        where_field("field5", false, Directive::new().with_condition(">")),
        where_field("field6", false, Directive::new().with_value("25")),
    ];
    let present = vec![true, true, true, false, true, true];
    let clause = where_clause(&schema, &present, &config("postgres")).unwrap();
    assert_eq!(
        clause.fragments,
        strings(&["id = $1", "field2 = $2", "field5 > $3", "field6 = 25"])
    );
    assert_eq!(clause.next_index, 4);
}

#[test]
fn combined_set_and_where_continues_numbering() {
    let schema = vec![
        set_field("title", true, Directive::new()),
        set_field("description", true, Directive::new()),
        set_field("updated_at", false, Directive::new().with_value("now()")),
        set_field("id", false, Directive::new().redirect_to_where()),
    ];
    let present = vec![true, true, true, true];
    let (sets, wheres) = set_and_where_clause(&schema, &present, &config("postgres")).unwrap();
    assert_eq!(
        sets.fragments,
        strings(&["title = $1", "description = $2", "updated_at = now()"])
    );
    assert_eq!(wheres.fragments, strings(&["id = $3"]));
    assert_eq!(sets.next_index, 3);
    assert_eq!(wheres.next_index, 4);
}

#[test]
fn generation_is_repeatable() {
    let schema = vec![
        where_field("a", true, Directive::new()),
        where_field("b", false, Directive::new().with_condition("<>")),
    ];
    let present = vec![false, true];
    let cfg = config("postgres");
    let first = where_clause(&schema, &present, &cfg).unwrap();
    let second = where_clause(&schema, &present, &cfg).unwrap();
    assert_eq!(first, second);
    assert_eq!(first.fragments, strings(&["b <> $1"]));
}

#[test]
fn fixed_index_and_literal_leave_counter_alone() {
    let schema = vec![
        where_field("a", false, Directive::new()),
        where_field("b", false, Directive::new().with_index(9)),
        where_field("c", false, Directive::new().with_value("now()")),
        where_field("d", false, Directive::new()),
    ];
    let present = vec![true; 4];
    let clause = where_clause(&schema, &present, &config("postgres")).unwrap();
    assert_eq!(clause.fragments, strings(&["a = $1", "b = $9", "c = now()", "d = $2"]));
    assert_eq!(clause.next_index, 3);
}

#[test]
fn absent_optional_consumes_no_index() {
    let schema = vec![
        where_field("a", true, Directive::new()),
        where_field("b", true, Directive::new()),
        where_field("c", true, Directive::new().with_ignore_none(false)),
    ];
    let cfg = config("postgres");
    let absent = where_clause(&schema, &vec![false, true, false], &cfg).unwrap();
    assert_eq!(absent.fragments, strings(&["b = $1", "c = $2"]));
    let present = where_clause(&schema, &vec![true, true, true], &cfg).unwrap();
    assert_eq!(present.fragments, strings(&["a = $1", "b = $2", "c = $3"]));
    let sets = set_clause(
        &vec![set_field("x", true, Directive::new()), set_field("y", false, Directive::new())],
        &vec![false, false],
        &cfg,
    )
    .unwrap();
    assert_eq!(sets.fragments, strings(&["y = $1"]));
}

#[test]
fn fields_without_directive_follow_configuration() {
    let schema = vec![
        FieldDescriptor::new("a", false),
        where_field("b", false, Directive::new()),
    ];
    let present = vec![true, true];
    let kept = where_clause(&schema, &present, &config("postgres")).unwrap();
    assert_eq!(kept.fragments, strings(&["b = $1"]));
    let all = where_clause(
        &schema,
        &present,
        &config("postgres").with_ignore_fields_without_directive(false),
    )
    .unwrap();
    assert_eq!(all.fragments, strings(&["a = $1", "b = $2"]));
}

#[test]
fn empty_schema_yields_empty_clauses() {
    let schema: Vec<FieldDescriptor> = Vec::new();
    let cfg = config("postgres").with_start_index(7);
    assert_eq!(select_clause(&schema), Vec::<String>::new());
    let values = values_clause(&schema, &cfg);
    assert_eq!(values, Clause { fragments: Vec::new(), next_index: 7 });
    let wheres = where_clause(&schema, &Vec::new(), &cfg).unwrap();
    assert_eq!(wheres.next_index, 7);
    assert!(wheres.fragments.is_empty());
}

#[test]
fn substituted_text_is_not_scanned_again() {
    let schema = vec![
        where_field("a", false, Directive::new().with_value("{index}")),
        where_field("b", false, Directive::new().renamed("{condition}").with_condition("<")),
        where_field("c", false, Directive::new().with_condition_all("{name}{name} {other} {index}")),
    ];
    let present = vec![true; 3];
    let clause = where_clause(&schema, &present, &config("postgres")).unwrap();
    assert_eq!(
        clause.fragments,
        strings(&["a = {index}", "{condition} < $1", "cc {other} $2"])
    );
}

#[test]
fn empty_condition_in_template_is_an_error() {
    let schema = vec![
        where_field("a", false, Directive::new()),
        where_field("b", false, Directive::new().with_condition("")),
    ];
    let err = where_clause(&schema, &vec![true, true], &config("postgres")).unwrap_err();
    assert_eq!(err, GenError::MissingCondition("b".to_string()));
}

#[test]
fn empty_condition_without_token_is_accepted() {
    let schema = vec![where_field(
        "b",
        false,
        Directive::new().with_condition("").with_condition_all("{name} IS NULL"),
    )];
    let clause = where_clause(&schema, &vec![true], &config("postgres")).unwrap();
    assert_eq!(clause.fragments, strings(&["b IS NULL"]));
}

#[test]
fn redirect_template_with_empty_condition_fails_set() {
    let schema = vec![set_field(
        "id",
        false,
        Directive::new().with_condition("").redirect_to_where_as("{name} {condition} {index}"),
    )];
    let err = set_clause(&schema, &vec![true], &config("postgres")).unwrap_err();
    assert_eq!(err, GenError::MissingCondition("id".to_string()));
}

#[test]
fn redirect_by_template_keeps_set_unless_configured() {
    let schema = vec![
        set_field("name", false, Directive::new()),
        set_field("id", false, Directive::new().redirect_to_where_as("{name} > {index}")),
        set_field("flag", false, Directive::new().ignore_in_set()),
    ];
    let present = vec![true; 3];
    let cfg = config("postgres");
    let (sets, wheres) = set_and_where_clause(&schema, &present, &cfg).unwrap();
    assert_eq!(sets.fragments, strings(&["name = $1", "id = $2"]));
    assert_eq!(wheres.fragments, strings(&["id > $3"]));
    let exclusive = cfg.with_ignore_set_and_where_conflict(true);
    let (sets, wheres) = set_and_where_clause(&schema, &present, &exclusive).unwrap();
    assert_eq!(sets.fragments, strings(&["name = $1"]));
    assert_eq!(wheres.fragments, strings(&["id > $2"]));
}

#[test]
fn set_rename_condition_and_fixed_index() {
    let schema = vec![
        set_field("a", false, Directive::new().renamed("col_a").with_index(10)),
        set_field("b", false, Directive::new().with_condition(">=").redirect_to_where()),
        set_field("c", false, Directive::new()),
    ];
    let present = vec![true; 3];
    let (sets, wheres) =
        set_and_where_clause(&schema, &present, &config("mssql").with_start_index(4)).unwrap();
    assert_eq!(sets.fragments, strings(&["col_a = @p10", "c = @p4"]));
    assert_eq!(wheres.fragments, strings(&["b >= @p5"]));
}

#[test]
fn placeholder_templates_per_dialect() {
    assert_eq!(generate_placeholder("postgres").unwrap(), "${index}");
    assert_eq!(generate_placeholder("mssql").unwrap(), "@p{index}");
    assert_eq!(generate_placeholder("mysql").unwrap(), "?");
    assert_eq!(generate_placeholder("mariadb").unwrap(), "?");
    assert_eq!(generate_placeholder("sqlite").unwrap(), "?");
    assert_eq!(generate_placeholder("oracle"), Err(GenError::UnsupportedDialect));
    assert_eq!(generate_placeholder("Postgres"), Err(GenError::UnsupportedDialect));
    assert_eq!(Dialect::Postgres.placeholder(42), "$42");
    assert_eq!(Dialect::Sqlite.placeholder(42), "?");
}

#[test]
fn config_binding_errors() {
    assert_eq!(GlobalConfig::new(None), Err(GenError::MissingDatabase));
    assert_eq!(GlobalConfig::new(Some("")), Err(GenError::UnsupportedDialect));
    assert_eq!(GlobalConfig::new(Some("db2")), Err(GenError::UnsupportedDialect));
    let cfg = config("mysql");
    assert_eq!(cfg.dialect, Dialect::Mysql);
    assert_eq!(cfg.start_index, 1);
    assert!(cfg.ignore_none);
    assert!(cfg.ignore_fields_without_directive);
    assert!(!cfg.ignore_set_and_where_conflict);
}

#[test]
fn values_literal_names_current_placeholder() {
    let schema = vec![
        FieldDescriptor::new("a", false).with_values(Directive::new().with_value("{index}::int")),
        FieldDescriptor::new("b", false),
    ];
    let clause = values_clause(&schema, &config("postgres"));
    assert_eq!(clause.fragments, strings(&["$1::int", "$1"]));
    assert_eq!(clause.next_index, 2);
}
