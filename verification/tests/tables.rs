use monotone::aws::call::{Call, Event};
use monotone::aws::dynamodb::{
    create_table, create_table_if_needed, create_table_input, describe_table, describe_table_input,
    list_tables, table_is_active, wait_for_table, Provision, TableDescription, Wait, POLL_MILLIS,
};
use monotone::aws::error::{ErrorKind, ServiceError};
use monotone::cli::parse_tag;
use monotone::cli::parse_tags;
use monotone::string::s;
use monotone::tags::Tags;
use monotone::time::{delayed, Jitter};

fn description(status: Option<&str>) -> TableDescription {
    TableDescription { table_name: Some(s("Counters")), table_status: status.map(s) }
}

fn not_found() -> ServiceError {
    ServiceError::Unknown(s(
        "{\"__type\":\"com.amazonaws.dynamodb.v20120810#ResourceNotFoundException\",\"message\":\"Requested resource not found: Table: Counters not found\"}",
    ))
}

fn already_exists() -> ServiceError {
    ServiceError::Unknown(s(
        "{\"__type\":\"com.amazonaws.dynamodb.v20120810#ResourceInUseException\",\"message\":\"Table already exists: Counters\"}",
    ))
}

#[test]
fn the_names_of_the_tables_are_listed() {
    assert_eq!(list_tables(Ok(Some(vec![s("a"), s("b")]))), Ok(vec![s("a"), s("b")]));
    assert_eq!(list_tables(Ok(None)), Ok(vec![]));
    assert_eq!(
        list_tables(Err(ServiceError::Other(s("down")))),
        Err(ErrorKind::ListTables(ServiceError::Other(s("down"))))
    );
}

#[test]
fn a_description_is_read_from_the_answer() {
    assert_eq!(describe_table_input("Counters").table_name, "Counters");
    assert_eq!(describe_table("Counters", Ok(Some(description(Some("ACTIVE"))))), Ok(description(Some("ACTIVE"))));
    assert_eq!(describe_table("Counters", Ok(None)), Err(ErrorKind::NoTableInfo));
    assert_eq!(describe_table("Counters", Err(not_found())), Err(ErrorKind::TableNotFound(s("Counters"))));
    assert_eq!(
        describe_table("Counters", Err(already_exists())),
        Err(ErrorKind::DescribeTable(already_exists()))
    );
    assert_eq!(
        describe_table("Counters", Err(ServiceError::Other(s("Requested resource not found: Table: x")))),
        Err(ErrorKind::DescribeTable(ServiceError::Other(s("Requested resource not found: Table: x"))))
    );
    assert!(table_is_active(&description(Some("ACTIVE"))));
    assert!(!table_is_active(&description(Some("CREATING"))));
    assert!(!table_is_active(&description(Some("active"))));
    assert!(!table_is_active(&description(None)));
}

#[test]
fn a_table_is_created_with_its_name_as_key() {
    let input = create_table_input("Counters", 1, 2);
    assert_eq!(input.table_name, "Counters");
    assert_eq!(input.provisioned_throughput.read_capacity_units, 1);
    assert_eq!(input.provisioned_throughput.write_capacity_units, 2);
    assert_eq!(input.attribute_definitions.len(), 1);
    assert_eq!(input.attribute_definitions[0].attribute_name, "ID");
    assert_eq!(input.attribute_definitions[0].attribute_type, "S");
    assert_eq!(input.key_schema.len(), 1);
    assert_eq!(input.key_schema[0].attribute_name, "ID");
    assert_eq!(input.key_schema[0].key_type, "HASH");

    assert_eq!(create_table("Counters", Ok(Some(description(Some("CREATING"))))), Ok(()));
    assert_eq!(create_table("Counters", Ok(None)), Err(ErrorKind::NoTableInfo));
    assert_eq!(create_table("Counters", Err(already_exists())), Err(ErrorKind::TableAlreadyExists(s("Counters"))));
    assert_eq!(create_table("Counters", Err(not_found())), Err(ErrorKind::CreateTable(not_found())));
}

#[test]
fn a_table_that_is_there_is_not_created() {
    let (state, call) = create_table_if_needed("Counters", 1, 1, Provision::Start, Event::Begin);
    assert_eq!(state, Provision::Describing);
    assert_eq!(call, Some(Call::DescribeTable(describe_table_input("Counters"))));
    let (state, call) =
        create_table_if_needed("Counters", 1, 1, state, Event::Described(Ok(Some(description(Some("ACTIVE"))))));
    assert_eq!(state, Provision::Done(Ok(description(Some("ACTIVE")))));
    assert_eq!(call, None);
    let (state, call) = create_table_if_needed("Counters", 1, 1, state, Event::Slept);
    assert_eq!(state, Provision::Done(Ok(description(Some("ACTIVE")))));
    assert_eq!(call, None);
}

#[test]
fn a_table_that_is_not_there_is_created() {
    let (state, call) = create_table_if_needed("Counters", 1, 1, Provision::Describing, Event::Described(Err(not_found())));
    assert_eq!(state, Provision::Creating);
    assert_eq!(call, Some(Call::CreateTable(create_table_input("Counters", 1, 1))));
    let (state, call) =
        create_table_if_needed("Counters", 1, 1, state, Event::Created(Ok(Some(description(Some("CREATING"))))));
    assert_eq!(state, Provision::Describing);
    assert_eq!(call, Some(Call::DescribeTable(describe_table_input("Counters"))));
    let (state, call) =
        create_table_if_needed("Counters", 1, 1, state, Event::Described(Ok(Some(description(Some("CREATING"))))));
    assert_eq!(state, Provision::Done(Ok(description(Some("CREATING")))));
    assert_eq!(call, None);

    // Someone else created the table in between: the description is asked
    // for again.
    let (state, call) = create_table_if_needed("Counters", 1, 1, Provision::Creating, Event::Created(Err(already_exists())));
    assert_eq!(state, Provision::Describing);
    assert_eq!(call, Some(Call::DescribeTable(describe_table_input("Counters"))));
}

#[test]
fn an_error_ends_the_making_of_a_table() {
    let down = ServiceError::Other(s("down"));
    let (state, call) = create_table_if_needed("Counters", 1, 1, Provision::Describing, Event::Described(Err(down.clone())));
    assert_eq!(state, Provision::Done(Err(ErrorKind::DescribeTable(down.clone()))));
    assert_eq!(call, None);
    let (state, _) = create_table_if_needed("Counters", 1, 1, Provision::Describing, Event::Described(Ok(None)));
    assert_eq!(state, Provision::Done(Err(ErrorKind::NoTableInfo)));
    let (state, _) = create_table_if_needed("Counters", 1, 1, Provision::Creating, Event::Created(Err(down.clone())));
    assert_eq!(state, Provision::Done(Err(ErrorKind::CreateTable(down.clone()))));
    let (state, _) = create_table_if_needed("Counters", 1, 1, Provision::Creating, Event::Created(Ok(None)));
    assert_eq!(state, Provision::Done(Err(ErrorKind::NoTableInfo)));
    let (state, call) = create_table_if_needed("Counters", 1, 1, Provision::Creating, Event::Described(Ok(None)));
    assert_eq!(state, Provision::Done(Err(ErrorKind::UnexpectedEvent)));
    assert_eq!(call, None);
}

#[test]
fn a_table_is_waited_for_until_it_is_active() {
    let (state, call) = wait_for_table("Counters", Wait::Start, Event::Begin);
    assert_eq!(state, Wait::Describing);
    assert_eq!(call, Some(Call::DescribeTable(describe_table_input("Counters"))));
    let (state, call) = wait_for_table("Counters", state, Event::Described(Ok(Some(description(Some("CREATING"))))));
    assert_eq!(state, Wait::Sleeping);
    assert_eq!(call, Some(Call::Sleep(1000)));
    assert_eq!(POLL_MILLIS, 1000);
    let (state, call) = wait_for_table("Counters", state, Event::Slept);
    assert_eq!(state, Wait::Describing);
    assert_eq!(call, Some(Call::DescribeTable(describe_table_input("Counters"))));
    let (state, call) = wait_for_table("Counters", state, Event::Described(Ok(Some(description(None)))));
    assert_eq!(state, Wait::Sleeping);
    assert_eq!(call, Some(Call::Sleep(1000)));
    let (state, _) = wait_for_table("Counters", state, Event::Slept);
    let (state, call) = wait_for_table("Counters", state, Event::Described(Ok(Some(description(Some("ACTIVE"))))));
    assert_eq!(state, Wait::Done(Ok(description(Some("ACTIVE")))));
    assert_eq!(call, None);
    let (state, call) = wait_for_table("Counters", state, Event::Begin);
    assert_eq!(state, Wait::Done(Ok(description(Some("ACTIVE")))));
    assert_eq!(call, None);

    let (state, call) = wait_for_table("Counters", Wait::Describing, Event::Described(Err(not_found())));
    assert_eq!(state, Wait::Done(Err(ErrorKind::TableNotFound(s("Counters")))));
    assert_eq!(call, None);
    let (state, _) = wait_for_table("Counters", Wait::Describing, Event::Described(Ok(None)));
    assert_eq!(state, Wait::Done(Err(ErrorKind::NoTableInfo)));
    let (state, _) = wait_for_table("Counters", Wait::Sleeping, Event::Begin);
    assert_eq!(state, Wait::Done(Err(ErrorKind::UnexpectedEvent)));
}

#[test]
fn tags_are_read_from_the_command_line() {
    assert_eq!(parse_tag("role=x"), Some((s("role"), s("x"))));
    assert_eq!(parse_tag("a=b=c"), Some((s("a"), s("b=c"))));
    assert_eq!(parse_tag("="), Some((s(""), s(""))));
    assert_eq!(parse_tag("k="), Some((s("k"), s(""))));
    assert_eq!(parse_tag("=v"), Some((s(""), s("v"))));
    assert_eq!(parse_tag("é=ü"), Some((s("é"), s("ü"))));
    assert_eq!(parse_tag("role"), None);
    assert_eq!(parse_tag(""), None);

    let mut tags = Tags::new();
    tags.insert(s("role"), s("y"));
    tags.insert(s("host"), s("a=b"));
    assert_eq!(parse_tags(&vec![s("role=x"), s("host=a=b"), s("role=y")]), Ok(tags));
    assert_eq!(parse_tags(&vec![]), Ok(Tags::new()));
    assert_eq!(
        parse_tags(&vec![s("role=x"), s("host"), s("zone")]),
        Err(monotone::cli::ErrorKind::InvalidTag(s("host")))
    );
    assert_eq!(monotone::cli::ErrorKind::InvalidTag(s("host")).message(), "invalid tag: host");
    assert_eq!(monotone::cli::ErrorKind::MissingArgument(s("id")).message(), "missing argument: id");
}

#[test]
fn jitter_stays_within_its_bound() {
    let mut seen = [false; 5];
    for _ in 0..2000 {
        let time = 100u64.jitter(5);
        assert!(100 <= time && time < 105);
        seen[(time - 100) as usize] = true;
    }
    assert_eq!(seen, [true; 5]);
    for _ in 0..100 {
        assert_eq!(7u64.jitter(1), 7);
        assert_eq!((u64::MAX - 1).jitter(1), u64::MAX - 1);
    }
    assert_eq!(delayed(100, 5), 105);
    assert_eq!(delayed(u64::MAX, 0), u64::MAX);
}
