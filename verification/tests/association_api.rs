use diesel_factories::association::{Association, DefaultFactory, ResolveAction};

#[derive(Clone)]
struct CountryFactory {
    code: String,
}

impl Default for CountryFactory {
    fn default() -> Self {
        CountryFactory { code: "SE".to_string() }
    }
}

struct Country;

impl DefaultFactory<CountryFactory> for Country {}

#[test]
fn default_factory_binding_yields_default_instance() {
    let f: CountryFactory = Country::factory();
    assert_eq!(f.code, "SE");
}

#[test]
fn association_defaults_to_unbuilt() {
    let a: Association<i64, CountryFactory> = Association::default();
    assert!(matches!(a, Association::Unbuilt));
}

#[test]
fn configured_factory_wraps_into_pending() {
    let f = CountryFactory { code: "DK".to_string() };
    let a: Association<i64, CountryFactory> = f.into();
    match a {
        Association::PendingFactory(g) => assert_eq!(g.code, "DK"),
        _ => panic!("a configured factory must wrap as pending"),
    }
}

#[test]
fn from_factory_wraps_into_pending() {
    let a: Association<i64, CountryFactory> =
        Association::from_factory(CountryFactory::default());
    assert!(matches!(a, Association::PendingFactory(_)));
}

#[test]
fn from_existing_wraps_into_existing_record() {
    let a: Association<i64, CountryFactory> = Association::from_existing(11);
    match a {
        Association::ExistingRecord(k) => assert_eq!(k, 11),
        _ => panic!("a persisted-record reference must wrap as existing"),
    }
}

#[test]
fn resolving_existing_record_uses_its_key() {
    let a: Association<i64, CountryFactory> = Association::ExistingRecord(5);
    match a.resolve_step() {
        ResolveAction::UseKey(k) => assert_eq!(k, 5),
        _ => panic!("an existing record must resolve to its key"),
    }
}

#[test]
fn resolving_pending_factory_demands_its_insert() {
    let f = CountryFactory { code: "NO".to_string() };
    let a: Association<i64, CountryFactory> = Association::PendingFactory(f);
    match a.resolve_step() {
        ResolveAction::InsertPendingFirst(g) => assert_eq!(g.code, "NO"),
        _ => panic!("a pending factory must be inserted first"),
    }
}

#[test]
fn resolving_unbuilt_demands_a_default_insert() {
    let a: Association<i64, CountryFactory> = Association::Unbuilt;
    assert!(matches!(a.resolve_step(), ResolveAction::InsertDefaultFirst));
}
