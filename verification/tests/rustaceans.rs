use rustacean::models::NewRustacean;
use rustacean::models::Rustacean;
use rustacean::repositories::RepositoryError;
use rustacean::repositories::RustaceanRepository;
use rustacean::routes::ResponseBody;
use rustacean::routes::create_rustacean;
use rustacean::routes::delete_rustacean;
use rustacean::routes::get_rustaceans;
use rustacean::routes::server_error;
use rustacean::routes::update_rustacean;
use rustacean::routes::view_rustacean;

const NOW: i64 = 1_700_000_000;

fn create_test_rustacean(repo: &mut RustaceanRepository) -> Rustacean {
    let response = create_rustacean(
        repo,
        NewRustacean {
            name: "Fox and a Hedge".to_string(),
            email: "fox@hedge.com".to_string(),
        },
        NOW,
    );
    assert_eq!(response.status, 201);

    match response.body {
        ResponseBody::RustaceanRecord(rec) => rec,
        _ => panic!("expected a rustacean record body"),
    }
}

fn delete_test_rustacean(repo: &mut RustaceanRepository, rustacean: Rustacean) {
    let response = delete_rustacean(repo, rustacean.id);
    assert_eq!(response.status, 204);
}

#[test]
fn test_get_rustaceans() {
    let mut repo = RustaceanRepository::new();
    let rustacean1 = create_test_rustacean(&mut repo);
    let rustacean2 = create_test_rustacean(&mut repo);

    let response = get_rustaceans(&repo);
    assert_eq!(response.status, 200);
    let records = match response.body {
        ResponseBody::RustaceanCollection(v) => v,
        _ => panic!("expected a rustacean collection body"),
    };
    assert!(records.contains(&rustacean1));
    assert!(records.contains(&rustacean2));

    delete_test_rustacean(&mut repo, rustacean1);
    delete_test_rustacean(&mut repo, rustacean2);
}

#[test]
fn test_create_rustaceans() {
    let mut repo = RustaceanRepository::new();
    let response = create_rustacean(
        &mut repo,
        NewRustacean {
            name: "Fox and a Hedge".to_string(),
            email: "fox@hedge.com".to_string(),
        },
        NOW,
    );
    assert_eq!(response.status, 201);

    let rustacean = match response.body {
        ResponseBody::RustaceanRecord(rec) => rec,
        _ => panic!("expected a rustacean record body"),
    };
    assert_eq!(
        rustacean,
        Rustacean {
            id: rustacean.id,
            name: "Fox and a Hedge".to_string(),
            email: "fox@hedge.com".to_string(),
            created_at: rustacean.created_at,
        }
    );

    delete_test_rustacean(&mut repo, rustacean);
}

#[test]
fn test_view_rustaceans() {
    let mut repo = RustaceanRepository::new();
    let rustacean = create_test_rustacean(&mut repo);

    let response = view_rustacean(&repo, rustacean.id);
    assert_eq!(response.status, 200);
    let rustacean = match response.body {
        ResponseBody::RustaceanRecord(rec) => rec,
        _ => panic!("expected a rustacean record body"),
    };
    assert_eq!(
        rustacean,
        Rustacean {
            id: rustacean.id,
            name: "Fox and a Hedge".to_string(),
            email: "fox@hedge.com".to_string(),
            created_at: rustacean.created_at,
        }
    );

    delete_test_rustacean(&mut repo, rustacean);
}

#[test]
fn test_update_rustaceans() {
    let mut repo = RustaceanRepository::new();
    let rustacean = create_test_rustacean(&mut repo);

    let response = update_rustacean(
        &mut repo,
        rustacean.id,
        Rustacean {
            id: rustacean.id,
            name: "Duck and a Hedge".to_string(),
            email: "duck@hedge.com".to_string(),
            created_at: rustacean.created_at,
        },
    );
    assert_eq!(response.status, 200);

    let rustacean = match response.body {
        ResponseBody::RustaceanRecord(rec) => rec,
        _ => panic!("expected a rustacean record body"),
    };
    assert_eq!(
        rustacean,
        Rustacean {
            id: rustacean.id,
            name: "Duck and a Hedge".to_string(),
            email: "duck@hedge.com".to_string(),
            created_at: rustacean.created_at,
        }
    );

    delete_test_rustacean(&mut repo, rustacean);
}

#[test]
fn test_delete_rustaceans() {
    let mut repo = RustaceanRepository::new();
    let rustacean = create_test_rustacean(&mut repo);

    let response = delete_rustacean(&mut repo, rustacean.id);
    assert_eq!(response.status, 204);
    assert!(matches!(response.body, ResponseBody::Empty));
}

#[test]
fn test_get_rustaceans_when_empty() {
    let repo = RustaceanRepository::new();
    let response = get_rustaceans(&repo);
    assert_eq!(response.status, 200);
    match response.body {
        ResponseBody::RustaceanCollection(v) => assert!(v.is_empty()),
        _ => panic!("expected a rustacean collection body"),
    }
}

#[test]
fn test_create_assigns_fresh_ids_and_timestamp() {
    let mut repo = RustaceanRepository::new();
    let first = create_test_rustacean(&mut repo);
    let second = create_test_rustacean(&mut repo);

    assert_eq!(first.id, 1);
    assert_eq!(second.id, 2);
    assert_eq!(first.created_at, NOW);
    assert_eq!(second.created_at, NOW);
}

#[test]
fn test_view_missing_rustacean() {
    let repo = RustaceanRepository::new();
    let response = view_rustacean(&repo, 42);
    assert_eq!(response.status, 404);
    match response.body {
        ResponseBody::ErrorMessage(m) => assert_eq!(m, "Error"),
        _ => panic!("expected the generic error body"),
    }
}

#[test]
fn test_update_missing_rustacean() {
    let mut repo = RustaceanRepository::new();
    let response = update_rustacean(
        &mut repo,
        7,
        Rustacean {
            id: 7,
            name: "Nobody".to_string(),
            email: "nobody@hedge.com".to_string(),
            created_at: 0,
        },
    );
    assert_eq!(response.status, 404);
    match response.body {
        ResponseBody::ErrorMessage(m) => assert_eq!(m, "Error"),
        _ => panic!("expected the generic error body"),
    }
}

#[test]
fn test_update_ignores_client_id_and_timestamp() {
    let mut repo = RustaceanRepository::new();
    let rustacean = create_test_rustacean(&mut repo);

    // The payload claims another id and creation instant; both are ignored.
    let response = update_rustacean(
        &mut repo,
        rustacean.id,
        Rustacean {
            id: 9999,
            name: "Duck and a Hedge".to_string(),
            email: "duck@hedge.com".to_string(),
            created_at: 123,
        },
    );
    assert_eq!(response.status, 200);
    let updated = match response.body {
        ResponseBody::RustaceanRecord(rec) => rec,
        _ => panic!("expected a rustacean record body"),
    };
    assert_eq!(updated.id, rustacean.id);
    assert_eq!(updated.created_at, rustacean.created_at);
    assert_eq!(updated.name, "Duck and a Hedge");
    assert_eq!(updated.email, "duck@hedge.com");
}

#[test]
fn test_view_after_delete_is_not_found() {
    let mut repo = RustaceanRepository::new();
    let rustacean = create_test_rustacean(&mut repo);
    let keeper = create_test_rustacean(&mut repo);

    let response = delete_rustacean(&mut repo, rustacean.id);
    assert_eq!(response.status, 204);

    let response = view_rustacean(&repo, rustacean.id);
    assert_eq!(response.status, 404);

    // The other record is untouched.
    let response = view_rustacean(&repo, keeper.id);
    assert_eq!(response.status, 200);
}

#[test]
fn test_delete_missing_rustacean_reports_zero_rows() {
    let mut repo = RustaceanRepository::new();
    assert_eq!(repo.delete(5), Ok(0));

    // The endpoint still answers 204: absence is not a failure.
    let response = delete_rustacean(&mut repo, 5);
    assert_eq!(response.status, 204);
    assert!(matches!(response.body, ResponseBody::Empty));
}

#[test]
fn test_server_error_is_generic() {
    let response = server_error();
    assert_eq!(response.status, 500);
    match response.body {
        ResponseBody::ErrorMessage(m) => assert_eq!(m, "Error"),
        _ => panic!("expected the generic error body"),
    }
}

#[test]
fn test_repository_find_not_found() {
    let repo = RustaceanRepository::new();
    assert_eq!(repo.find(1), Err(RepositoryError::NotFound));
}

#[test]
fn test_find_multiple_caps_the_listing() {
    let mut repo = RustaceanRepository::new();
    let first = create_test_rustacean(&mut repo);
    let second = create_test_rustacean(&mut repo);
    let _third = create_test_rustacean(&mut repo);

    let listed = repo.find_multiple(2).unwrap();
    assert_eq!(listed, vec![first, second]);

    let all = repo.find_multiple(100).unwrap();
    assert_eq!(all.len(), 3);
}

#[test]
fn test_create_fails_when_id_space_is_exhausted() {
    let mut repo = RustaceanRepository {
        rows: Vec::new(),
        next_id: i32::MAX,
    };
    let outcome = repo.create(
        NewRustacean {
            name: "Late".to_string(),
            email: "late@hedge.com".to_string(),
        },
        NOW,
    );
    assert_eq!(outcome, Err(RepositoryError::StorageUnavailable));

    let response = create_rustacean(
        &mut repo,
        NewRustacean {
            name: "Late".to_string(),
            email: "late@hedge.com".to_string(),
        },
        NOW,
    );
    assert_eq!(response.status, 500);
    match response.body {
        ResponseBody::ErrorMessage(m) => assert_eq!(m, "Error"),
        _ => panic!("expected the generic error body"),
    }
}
