use icu_provider_cldr::{
    CellState, DataError, DataRequest, LazyCldrProvider, ResourceCategory, ResourceKey,
    ResourceOptions, Step,
};
use std::cell::Cell;

fn key(n: u128) -> ResourceKey {
    ResourceKey { category: ResourceCategory::Core, sub_category: n, version: 1 }
}

fn request(n: u128, tag: &str) -> DataRequest {
    DataRequest {
        key: key(n),
        options: ResourceOptions { variant: None, langid: Some(tag.to_string()) },
    }
}

fn echo(provider: &u32, req: &DataRequest) -> Result<String, DataError> {
    match &req.options.langid {
        Some(tag) if tag != "xx" => Ok(format!("{}/{}", provider, tag)),
        _ => Err(DataError::UnsupportedOptions(req.clone())),
    }
}

#[test]
fn new_cell_is_unbuilt_and_keeps_its_keys() {
    let cell: LazyCldrProvider<u32> = LazyCldrProvider::new(vec![key(1), key(2)]);
    assert_eq!(cell.keys(), &vec![key(1), key(2)]);
    assert!(!cell.is_built());
    assert!(!cell.is_settled());
    assert!(cell.provider().is_none());
    assert!(cell.failure().is_none());
    assert!(cell.supports_key(&key(1)));
    assert!(cell.supports_key(&key(2)));
    assert!(!cell.supports_key(&key(3)));
}

#[test]
fn keys_differ_in_any_field() {
    let cell: LazyCldrProvider<u32> = LazyCldrProvider::new(vec![key(1)]);
    assert!(!cell.supports_key(&ResourceKey {
        category: ResourceCategory::Core,
        sub_category: 1,
        version: 2
    }));
    assert!(!cell.supports_key(&ResourceKey {
        category: ResourceCategory::Plurals,
        sub_category: 1,
        version: 1
    }));
    assert!(!cell.supports_key(&ResourceKey {
        category: ResourceCategory::PrivateUse(1),
        sub_category: 1,
        version: 1
    }));
}

#[test]
fn steps_follow_the_state() {
    let mut cell: LazyCldrProvider<u32> = LazyCldrProvider::new(vec![key(1)]);
    assert_eq!(cell.next_step(&key(1)), Step::Build);
    assert_eq!(cell.next_step(&key(9)), Step::Skip);
    cell.settle(Ok(5));
    assert_eq!(cell.next_step(&key(1)), Step::Serve);
    assert_eq!(cell.next_step(&key(9)), Step::Skip);
    assert_eq!(cell.provider(), Some(&5));

    let mut broken: LazyCldrProvider<u32> = LazyCldrProvider::new(vec![key(1)]);
    broken.settle(Err(DataError::Parse("bad tree".to_string())));
    assert_eq!(broken.next_step(&key(1)), Step::Replay);
    assert_eq!(broken.next_step(&key(9)), Step::Skip);
    assert_eq!(broken.failure(), Some(DataError::Parse("bad tree".to_string())));
    assert!(broken.is_settled());
    assert!(!broken.is_built());
}

#[test]
fn a_settled_cell_ignores_later_outcomes() {
    let mut cell: LazyCldrProvider<u32> = LazyCldrProvider::new(vec![key(1)]);
    cell.settle(Ok(5));
    cell.settle(Ok(6));
    assert_eq!(cell.provider(), Some(&5));
    cell.settle(Err(DataError::Io("gone".to_string())));
    assert_eq!(cell.provider(), Some(&5));
    assert!(cell.failure().is_none());

    let mut broken: LazyCldrProvider<u32> = LazyCldrProvider::new(vec![key(1)]);
    broken.settle(Err(DataError::Io("gone".to_string())));
    broken.settle(Ok(7));
    assert!(broken.provider().is_none());
    assert_eq!(broken.failure(), Some(DataError::Io("gone".to_string())));
}

#[test]
fn a_foreign_key_is_declined_without_building() {
    let mut cell: LazyCldrProvider<u32> = LazyCldrProvider::new(vec![key(1)]);
    let builds = Cell::new(0u32);
    let out = cell.try_load(
        &request(2, "en"),
        || {
            builds.set(builds.get() + 1);
            Ok(5)
        },
        echo,
    );
    assert!(out.is_none());
    assert_eq!(builds.get(), 0);
    assert!(!cell.is_settled());

    let listed = cell.try_supported_options(
        &key(2),
        || {
            builds.set(builds.get() + 1);
            Ok(5)
        },
        |_: &u32, _: &ResourceKey| Ok(Vec::new()),
    );
    assert!(listed.is_none());
    assert_eq!(builds.get(), 0);
    assert!(!cell.is_settled());
}

#[test]
fn the_first_request_builds_and_later_ones_reuse() {
    let mut cell: LazyCldrProvider<u32> = LazyCldrProvider::new(vec![key(1), key(2)]);
    let builds = Cell::new(0u32);
    let build = || {
        builds.set(builds.get() + 1);
        Ok(40 + builds.get())
    };
    assert_eq!(cell.try_load(&request(1, "en"), build, echo), Some(Ok("41/en".to_string())));
    assert_eq!(cell.try_load(&request(2, "fr"), build, echo), Some(Ok("41/fr".to_string())));
    assert_eq!(cell.try_load(&request(1, "de"), build, echo), Some(Ok("41/de".to_string())));
    assert_eq!(
        cell.try_load(&request(1, "xx"), build, echo),
        Some(Err(DataError::UnsupportedOptions(request(1, "xx"))))
    );
    assert_eq!(cell.try_load(&request(3, "en"), build, echo), None);
    assert_eq!(builds.get(), 1);
    assert_eq!(cell.provider(), Some(&41));
}

#[test]
fn a_failed_build_is_kept_and_not_tried_again() {
    let mut cell: LazyCldrProvider<u32> = LazyCldrProvider::new(vec![key(1), key(2)]);
    let builds = Cell::new(0u32);
    let build = || {
        builds.set(builds.get() + 1);
        if builds.get() == 1 {
            Err(DataError::Io("no tree for plurals".to_string()))
        } else {
            Ok(5)
        }
    };
    let kept = DataError::Io("no tree for plurals".to_string());
    assert_eq!(cell.try_load(&request(1, "en"), build, echo), Some(Err(kept.clone())));
    assert_eq!(cell.try_load(&request(2, "fr"), build, echo), Some(Err(kept.clone())));
    assert_eq!(
        cell.try_supported_options(&key(1), build, |_: &u32, _: &ResourceKey| Ok(Vec::new())),
        Some(Err(kept.clone()))
    );
    assert_eq!(builds.get(), 1);
    assert_eq!(cell.failure(), Some(kept));
    assert!(matches!(cell.try_load(&request(3, "en"), build, echo), None));
}

#[test]
fn listing_builds_like_loading() {
    let mut cell: LazyCldrProvider<Vec<ResourceOptions>> = LazyCldrProvider::new(vec![key(1)]);
    let builds = Cell::new(0u32);
    let held = vec![
        ResourceOptions { variant: None, langid: Some("en".to_string()) },
        ResourceOptions { variant: Some("short".to_string()), langid: Some("fr".to_string()) },
    ];
    let build = || {
        builds.set(builds.get() + 1);
        Ok(held.clone())
    };
    let list = |p: &Vec<ResourceOptions>, _: &ResourceKey| Ok(p.clone());
    assert_eq!(cell.try_supported_options(&key(1), build, list), Some(Ok(held.clone())));
    assert_eq!(cell.try_supported_options(&key(1), build, list), Some(Ok(held.clone())));
    assert_eq!(builds.get(), 1);
    assert!(cell.is_built());
}

#[test]
fn asking_passes_the_query_through() {
    let mut cell: LazyCldrProvider<u32> = LazyCldrProvider::new(vec![key(1)]);
    let out = cell.try_ask(&key(1), &10u32, || Ok(5), |p: &u32, q: &u32| Ok(p + q));
    assert_eq!(out, Some(Ok(15)));
    let out: Option<Result<u32, DataError>> =
        cell.try_ask(&key(1), &10u32, || Ok(6), |_: &u32, _: &u32| {
            Err(DataError::Parse("not a number".to_string()))
        });
    assert_eq!(out, Some(Err(DataError::Parse("not a number".to_string()))));
    assert_eq!(cell.provider(), Some(&5));
}

#[test]
fn states_can_be_told_apart() {
    let unbuilt: CellState<u32> = CellState::Unbuilt;
    let built: CellState<u32> = CellState::Built(1);
    let failed: CellState<u32> = CellState::Failed(DataError::Io(String::new()));
    assert!(matches!(unbuilt, CellState::Unbuilt));
    assert!(matches!(built, CellState::Built(1)));
    assert!(matches!(failed, CellState::Failed(DataError::Io(_))));
}

#[test]
fn errors_and_requests_clone_to_equal_values() {
    let req = DataRequest {
        key: key(4),
        options: ResourceOptions {
            variant: Some("gregory".to_string()),
            langid: Some("pt-BR".to_string()),
        },
    };
    assert_eq!(req.clone(), req);
    assert_eq!(req.options.clone(), req.options);
    let errors = [
        DataError::MissingResourceKey(key(4)),
        DataError::UnsupportedOptions(req.clone()),
        DataError::Io("disk".to_string()),
        DataError::Parse("json".to_string()),
    ];
    for (i, a) in errors.iter().enumerate() {
        assert_eq!(&a.clone(), a);
        for (j, b) in errors.iter().enumerate() {
            assert_eq!(a == b, i == j);
        }
    }
    assert_ne!(DataError::Io("x".to_string()), DataError::Parse("x".to_string()));
}

#[test]
fn empty_options_select_nothing() {
    let options = ResourceOptions::empty();
    assert_eq!(options, ResourceOptions { variant: None, langid: None });
    let req = DataRequest::for_key(key(8));
    assert_eq!(req, DataRequest { key: key(8), options: ResourceOptions::empty() });
}
