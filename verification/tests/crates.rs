use rustacean::models::Crate;
use rustacean::models::NewCrate;
use rustacean::models::NewRustacean;
use rustacean::models::Rustacean;
use rustacean::repositories::CrateRepository;
use rustacean::repositories::RustaceanRepository;
use rustacean::routes::ResponseBody;
use rustacean::routes::create_crate;
use rustacean::routes::create_rustacean;
use rustacean::routes::delete_crate;
use rustacean::routes::delete_rustacean;
use rustacean::routes::get_crates;
use rustacean::routes::view_crate;
use rustacean::routes::update_crate;

const NOW: i64 = 1_700_000_000;

fn create_test_rustacean(repo: &mut RustaceanRepository) -> Rustacean {
    let response = create_rustacean(
        repo,
        NewRustacean {
            name: "Fox and a Hedge".to_string(),
            email: "fox@hedge.com".to_string(),
        },
        NOW,
    );
    assert_eq!(response.status, 201);

    match response.body {
        ResponseBody::RustaceanRecord(rec) => rec,
        _ => panic!("expected a rustacean record body"),
    }
}

fn create_test_crate(repo: &mut CrateRepository, rustacean: &Rustacean) -> Crate {
    let response = create_crate(
        repo,
        NewCrate {
            rustacean_id: rustacean.id,
            code: "foo".to_string(),
            name: "Baz crate".to_string(),
            version: "0.1".to_string(),
            description: "The Crate Description".to_string(),
        },
        NOW,
    );
    assert_eq!(response.status, 201);

    match response.body {
        ResponseBody::CrateRecord(rec) => rec,
        _ => panic!("expected a crate record body"),
    }
}

fn delete_test_rustacean(repo: &mut RustaceanRepository, rustacean: Rustacean) {
    let response = delete_rustacean(repo, rustacean.id);
    assert_eq!(response.status, 204);
}

fn delete_test_crate(repo: &mut CrateRepository, a_crate: Crate) {
    let response = delete_crate(repo, a_crate.id);
    assert_eq!(response.status, 204);
}

#[test]
fn test_create_crate() {
    let mut rustaceans = RustaceanRepository::new();
    let mut crates = CrateRepository::new();

    // create rustacean that owns crate
    let rustacean = create_test_rustacean(&mut rustaceans);

    let response = create_crate(
        &mut crates,
        NewCrate {
            rustacean_id: rustacean.id,
            code: "foo".to_string(),
            name: "Baz crate".to_string(),
            version: "0.1".to_string(),
            description: "The Crate Description".to_string(),
        },
        NOW,
    );
    assert_eq!(response.status, 201);

    // check crate correctly created
    let a_crate = match response.body {
        ResponseBody::CrateRecord(rec) => rec,
        _ => panic!("expected a crate record body"),
    };
    assert_eq!(
        a_crate,
        Crate {
            id: a_crate.id,
            code: "foo".to_string(),
            name: "Baz crate".to_string(),
            version: "0.1".to_string(),
            description: "The Crate Description".to_string(),
            rustacean_id: rustacean.id,
            created_at: a_crate.created_at,
        }
    );

    delete_test_crate(&mut crates, a_crate);
    delete_test_rustacean(&mut rustaceans, rustacean);
}

#[test]
fn test_view_crate() {
    let mut rustaceans = RustaceanRepository::new();
    let mut crates = CrateRepository::new();
    let rustacean = create_test_rustacean(&mut rustaceans);
    let a_crate = create_test_crate(&mut crates, &rustacean);

    let response = view_crate(&crates, a_crate.id);
    assert_eq!(response.status, 200);

    let a_crate = match response.body {
        ResponseBody::CrateRecord(rec) => rec,
        _ => panic!("expected a crate record body"),
    };
    assert_eq!(
        a_crate,
        Crate {
            id: a_crate.id,
            code: "foo".to_string(),
            name: "Baz crate".to_string(),
            version: "0.1".to_string(),
            description: "The Crate Description".to_string(),
            rustacean_id: rustacean.id,
            created_at: a_crate.created_at,
        }
    );

    delete_test_crate(&mut crates, a_crate);
    delete_test_rustacean(&mut rustaceans, rustacean);
}

#[test]
fn test_update_crate() {
    let mut rustaceans = RustaceanRepository::new();
    let mut crates = CrateRepository::new();
    let rustacean = create_test_rustacean(&mut rustaceans);
    let a_crate = create_test_crate(&mut crates, &rustacean);

    let response = update_crate(
        &mut crates,
        a_crate.id,
        Crate {
            id: a_crate.id,
            code: "bla".to_string(),
            name: "Something else".to_string(),
            version: "0.3".to_string(),
            description: "The Crate Organization".to_string(),
            rustacean_id: rustacean.id,
            created_at: a_crate.created_at,
        },
    );
    assert_eq!(response.status, 200);

    let a_crate = match response.body {
        ResponseBody::CrateRecord(rec) => rec,
        _ => panic!("expected a crate record body"),
    };
    assert_eq!(
        a_crate,
        Crate {
            id: a_crate.id,
            code: "bla".to_string(),
            name: "Something else".to_string(),
            version: "0.3".to_string(),
            description: "The Crate Organization".to_string(),
            rustacean_id: rustacean.id,
            created_at: a_crate.created_at,
        }
    );

    // Test changing crate author
    let rustacean2 = create_test_rustacean(&mut rustaceans);
    let response = update_crate(
        &mut crates,
        a_crate.id,
        Crate {
            id: a_crate.id,
            code: "bla".to_string(),
            name: "Something else".to_string(),
            version: "0.3".to_string(),
            description: "The Crate Organization".to_string(),
            rustacean_id: rustacean2.id,
            created_at: a_crate.created_at,
        },
    );
    assert_eq!(response.status, 200);

    let a_crate = match response.body {
        ResponseBody::CrateRecord(rec) => rec,
        _ => panic!("expected a crate record body"),
    };
    assert_eq!(
        a_crate,
        Crate {
            id: a_crate.id,
            code: "bla".to_string(),
            name: "Something else".to_string(),
            version: "0.3".to_string(),
            description: "The Crate Organization".to_string(),
            rustacean_id: rustacean2.id,
            created_at: a_crate.created_at,
        }
    );

    delete_test_crate(&mut crates, a_crate);
    delete_test_rustacean(&mut rustaceans, rustacean);
}

#[test]
fn test_delete_crate() {
    let mut rustaceans = RustaceanRepository::new();
    let mut crates = CrateRepository::new();
    let rustacean = create_test_rustacean(&mut rustaceans);
    let a_crate = create_test_crate(&mut crates, &rustacean);

    let response = delete_crate(&mut crates, a_crate.id);
    assert_eq!(response.status, 204);
    assert!(matches!(response.body, ResponseBody::Empty));

    delete_test_rustacean(&mut rustaceans, rustacean);
}

#[test]
fn test_get_crates() {
    // Setup
    let mut rustaceans = RustaceanRepository::new();
    let mut crates = CrateRepository::new();
    let rustacean = create_test_rustacean(&mut rustaceans);
    let a_crate = create_test_crate(&mut crates, &rustacean);
    let b_crate = create_test_crate(&mut crates, &rustacean);

    // Test
    let response = get_crates(&crates);
    assert_eq!(response.status, 200);
    let records = match response.body {
        ResponseBody::CrateCollection(v) => v,
        _ => panic!("expected a crate collection body"),
    };
    assert!(records.contains(&a_crate));
    assert!(records.contains(&b_crate));

    // Cleanup
    delete_test_crate(&mut crates, a_crate);
    delete_test_crate(&mut crates, b_crate);
    delete_test_rustacean(&mut rustaceans, rustacean);
}

#[test]
fn test_view_crate_after_delete_is_not_found() {
    let mut rustaceans = RustaceanRepository::new();
    let mut crates = CrateRepository::new();
    let rustacean = create_test_rustacean(&mut rustaceans);
    let a_crate = create_test_crate(&mut crates, &rustacean);

    delete_test_crate(&mut crates, a_crate.clone());

    let response = view_crate(&crates, a_crate.id);
    assert_eq!(response.status, 404);
    match response.body {
        ResponseBody::ErrorMessage(m) => assert_eq!(m, "Error"),
        _ => panic!("expected the generic error body"),
    }
}

#[test]
fn test_update_crate_keeps_id_and_timestamp() {
    let mut rustaceans = RustaceanRepository::new();
    let mut crates = CrateRepository::new();
    let rustacean = create_test_rustacean(&mut rustaceans);
    let a_crate = create_test_crate(&mut crates, &rustacean);

    // The payload claims another id and creation instant; both are ignored.
    let response = update_crate(
        &mut crates,
        a_crate.id,
        Crate {
            id: 9999,
            code: "bla".to_string(),
            name: "Something else".to_string(),
            version: "0.3".to_string(),
            description: "The Crate Organization".to_string(),
            rustacean_id: rustacean.id,
            created_at: 123,
        },
    );
    assert_eq!(response.status, 200);
    let updated = match response.body {
        ResponseBody::CrateRecord(rec) => rec,
        _ => panic!("expected a crate record body"),
    };
    assert_eq!(updated.id, a_crate.id);
    assert_eq!(updated.created_at, a_crate.created_at);
    assert_eq!(updated.code, "bla");

    // The reassignment and the other new fields are visible on a re-read.
    let response = view_crate(&crates, a_crate.id);
    assert_eq!(response.status, 200);
    let read_back = match response.body {
        ResponseBody::CrateRecord(rec) => rec,
        _ => panic!("expected a crate record body"),
    };
    assert_eq!(read_back, updated);
}
