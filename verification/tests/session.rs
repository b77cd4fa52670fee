use boat::asset::{DemoAsset, PreparedAsset, PreparedMaterial, PreparedTexture, PrimitiveTopology};
use boat::database::{
    asset_matches, object_name, prepared_asset_key, publication, put_prepared_assets,
    CatalogLoader, DatabasePreparedCatalog,
};
use boat::error::{GeometryProbeError, Ui4Error};
use boat::model::source_parameters;
use boat::run::{BoatRun, DatabaseFailure, RunAction, RunEvent, RunStop};
use std::collections::BTreeMap;

type Store = BTreeMap<String, Vec<u8>>;

fn asset(name: &'static str, vertices: &'static [u8]) -> PreparedAsset {
    PreparedAsset {
        name,
        vertices,
        indices: &[0, 0, 0, 0],
        vertex_count: 1,
        index_count: 1,
        vertex_stride: 24,
        material: PreparedMaterial {
            base_color: PreparedTexture { name: "base", bytes: &[1, 2] },
            metallic_roughness: PreparedTexture { name: "metal", bytes: &[3] },
            emissive: PreparedTexture::none(),
            occlusion: PreparedTexture { name: "occlusion", bytes: &[4] },
            normal: PreparedTexture { name: "normal", bytes: &[5] },
            parameters: source_parameters(None, 1),
        },
        sampled_material: true,
        helmet_program: true,
        primitives: &[],
        retained_topology: Some(PrimitiveTopology::TriangleList),
        retained_double_sided: false,
    }
}

fn fleet() -> [PreparedAsset; 2] {
    [asset("Ship", &[7; 24]), asset("Buoy", &[8; 24])]
}

const SOURCES: [DemoAsset; 2] = [
    DemoAsset { name: "Ship", bytes: &[1, 2, 3, 4, 5] },
    DemoAsset { name: "Buoy", bytes: &[6, 7] },
];

/// Carry a call out on a store, as a sound database does.
fn serve(store: &mut Store, action: RunAction) -> Result<RunEvent, RunAction> {
    Ok(match action {
        RunAction::CreateDatabase => RunEvent::DatabaseCreated(Ok(())),
        RunAction::PutSource { slot } => {
            store.insert(SOURCES[slot].name.to_string(), SOURCES[slot].bytes.to_vec());
            RunEvent::SourcePut(Ok(()))
        }
        RunAction::ReadSource { slot } => {
            RunEvent::SourceRead(Ok(store.get(SOURCES[slot].name).cloned()))
        }
        RunAction::PutPrepared { key, bytes } => {
            store.insert(key, bytes);
            RunEvent::PreparedPut(Ok(()))
        }
        RunAction::ReadPrepared { key } => RunEvent::PreparedRead(Ok(store.get(&key).cloned())),
        other => return Err(other),
    })
}

fn run_to_open<'a>(assets: &'a [PreparedAsset]) -> (BoatRun<'a>, RunAction, usize, Store) {
    let mut store = Store::new();
    let (mut run, mut action) = BoatRun::new(&SOURCES, assets);
    let mut answers = 0;
    loop {
        match serve(&mut store, action) {
            Ok(event) => {
                answers += 1;
                action = run.advance(event);
            }
            Err(open) => return (run, open, answers, store),
        }
    }
}

fn stop_of(action: RunAction) -> RunStop {
    match action {
        RunAction::Stop(stop) => stop,
        _ => panic!("the program goes on"),
    }
}

fn load(store: &Store, assets: &[PreparedAsset]) -> Option<DatabasePreparedCatalog> {
    let mut loader = CatalogLoader::new();
    while let Some(key) = loader.next_key(assets) {
        loader.supply(store.get(&key).cloned());
    }
    loader.finish()
}

#[test]
fn objects_have_keys_of_their_own() {
    assert_eq!(prepared_asset_key("Ship", "mesh/indices"), "Ship/prepared/mesh/indices");
    let names: Vec<&str> = (0..8).map(object_name).collect();
    assert_eq!(
        names,
        [
            "mesh/vertices",
            "mesh/indices",
            "material/base-color",
            "material/metallic-roughness",
            "material/emissive",
            "material/occlusion",
            "material/normal",
            "material/parameters.f32le",
        ]
    );
    let assets = fleet();
    let writes = put_prepared_assets(&assets);
    assert_eq!(writes.len(), 16);
    let keys: Store = writes.into_iter().map(|write| (write.key, write.bytes)).collect();
    assert_eq!(keys.len(), 16);
    assert_eq!(keys["Buoy/prepared/mesh/vertices"], vec![8; 24]);
    assert_eq!(keys["Ship/prepared/material/occlusion"], vec![4]);
    assert_eq!(keys["Ship/prepared/material/emissive"], Vec::<u8>::new());
    assert_eq!(publication(&assets[1], 3).key, "Buoy/prepared/material/metallic-roughness");
    assert_eq!(publication(&assets[1], 7).bytes.len(), 64);
}

#[test]
fn a_published_catalog_is_read_back() {
    let assets = fleet();
    let mut store = Store::new();
    store.insert("Ship/prepared/mesh/vertices".to_string(), vec![0]);
    for write in put_prepared_assets(&assets) {
        store.insert(write.key, write.bytes);
    }
    let catalog = load(&store, &assets).unwrap();
    assert_eq!(catalog.assets.len(), 2);
    for (held, prepared) in catalog.assets.iter().zip(&assets) {
        assert!(asset_matches(held, prepared));
    }
    assert!(!asset_matches(&catalog.assets[0], &assets[1]));
}

#[test]
fn a_missing_or_malformed_object_ends_the_reading() {
    let assets = fleet();
    let mut full = Store::new();
    for write in put_prepared_assets(&assets) {
        full.insert(write.key, write.bytes);
    }
    for key in full.keys() {
        let mut store = full.clone();
        store.remove(key);
        assert!(load(&store, &assets).is_none(), "{key}");
    }
    let mut store = full.clone();
    store.insert("Buoy/prepared/material/parameters.f32le".to_string(), vec![0; 63]);
    assert!(load(&store, &assets).is_none());
    assert!(load(&Store::new(), &[]).unwrap().assets.is_empty());
}

#[test]
fn a_number_that_is_none_never_matches() {
    let mut odd = asset("Ship", &[7; 24]);
    odd.material.parameters.normal_scale = f32::NAN.to_bits();
    let assets = [odd];
    let mut store = Store::new();
    for write in put_prepared_assets(&assets) {
        store.insert(write.key, write.bytes);
    }
    let catalog = load(&store, &assets).unwrap();
    assert!(!asset_matches(&catalog.assets[0], &assets[0]));
}

#[test]
fn the_scene_opens_over_the_prepared_assets() {
    let assets = fleet();
    let (_, action, answers, store) = run_to_open(&assets);
    assert_eq!(answers, 1 + 2 * 2 + 2 * 16);
    assert_eq!(store.len(), 2 + 16);
    match action {
        RunAction::Open { catalog, source_bytes } => {
            assert_eq!(source_bytes, 7);
            assert_eq!(catalog.assets.len(), 2);
            for (held, prepared) in catalog.assets.iter().zip(&assets) {
                assert!(asset_matches(held, prepared));
            }
        }
        _ => panic!("the scene is not opened"),
    }
}

#[test]
fn database_failures_stop_the_program() {
    let assets = fleet();
    let failure = DatabaseFailure;
    let (mut run, _) = BoatRun::new(&SOURCES, &assets);
    assert_eq!(
        stop_of(run.advance(RunEvent::DatabaseCreated(Err(failure)))),
        RunStop::DatabaseUnavailable
    );

    let (mut run, _) = BoatRun::new(&SOURCES, &assets);
    run.advance(RunEvent::DatabaseCreated(Ok(())));
    assert_eq!(
        stop_of(run.advance(RunEvent::SourcePut(Err(failure)))),
        RunStop::SourceRejected { slot: 0 }
    );

    for (found, stop) in [
        (Err(failure), RunStop::SourceUnreadable { slot: 0 }),
        (Ok(None), RunStop::SourceMismatch { slot: 0 }),
        (Ok(Some(vec![1, 2, 3, 4])), RunStop::SourceMismatch { slot: 0 }),
    ] {
        let (mut run, _) = BoatRun::new(&SOURCES, &assets);
        run.advance(RunEvent::DatabaseCreated(Ok(())));
        run.advance(RunEvent::SourcePut(Ok(())));
        assert_eq!(stop_of(run.advance(RunEvent::SourceRead(found))), stop);
    }

    let (mut run, _) = BoatRun::new(&[], &assets);
    run.advance(RunEvent::DatabaseCreated(Ok(())));
    assert_eq!(
        stop_of(run.advance(RunEvent::PreparedPut(Err(failure)))),
        RunStop::PreparedRejected
    );

    for (found, stop) in [
        (Err(failure), RunStop::PreparedUnreadable),
        (Ok(None), RunStop::PreparedMissing),
    ] {
        let (mut run, mut action) = BoatRun::new(&[], &assets);
        let mut store = Store::new();
        while !matches!(action, RunAction::ReadPrepared { .. }) {
            action = match serve(&mut store, action) {
                Ok(event) => run.advance(event),
                Err(_) => unreachable!(),
            };
        }
        assert_eq!(stop_of(run.advance(RunEvent::PreparedRead(found))), stop);
    }
}

#[test]
fn the_first_frame_is_tried_until_it_is_rendered() {
    let assets = fleet();
    let (mut run, _, _, _) = run_to_open(&assets);
    assert!(matches!(run.advance(RunEvent::Opened(Ok(()))), RunAction::RenderFirst));
    assert!(matches!(run.advance(RunEvent::FirstFrame(Ok(false))), RunAction::Backoff));
    assert!(matches!(run.advance(RunEvent::BackedOff), RunAction::RenderFirst));
    assert!(matches!(run.advance(RunEvent::FirstFrame(Ok(true))), RunAction::StartClock));
}

#[test]
fn setup_and_animation_fail_apart() {
    let assets = fleet();
    let error = GeometryProbeError::Ui4("frame-begin", Ui4Error::NotFound);
    let (mut run, _, _, _) = run_to_open(&assets);
    assert_eq!(
        stop_of(run.advance(RunEvent::Opened(Err(error)))),
        RunStop::SetupFailed(error)
    );
    let (mut run, _, _, _) = run_to_open(&assets);
    run.advance(RunEvent::Opened(Ok(())));
    assert_eq!(
        stop_of(run.advance(RunEvent::FirstFrame(Err(error)))),
        RunStop::SetupFailed(error)
    );
    let (mut run, _, _, _) = run_to_open(&assets);
    run.advance(RunEvent::Opened(Ok(())));
    run.advance(RunEvent::FirstFrame(Ok(true)));
    run.advance(RunEvent::ClockStarted(0));
    run.advance(RunEvent::Polled(1));
    assert_eq!(
        stop_of(run.advance(RunEvent::Rendered(Err(error)))),
        RunStop::AnimationFailed(error)
    );
    let (mut run, _, _, _) = run_to_open(&assets);
    run.advance(RunEvent::Opened(Ok(())));
    run.advance(RunEvent::FirstFrame(Ok(true)));
    run.advance(RunEvent::ClockStarted(0));
    run.advance(RunEvent::Polled(1));
    run.advance(RunEvent::Rendered(Ok(true)));
    assert_eq!(
        stop_of(run.advance(RunEvent::PresentationTaken(Err(error)))),
        RunStop::PresentationFailed(error)
    );
}

#[test]
fn the_first_presentation_is_reported_once() {
    let assets = fleet();
    let (mut run, _, _, _) = run_to_open(&assets);
    run.advance(RunEvent::Opened(Ok(())));
    run.advance(RunEvent::FirstFrame(Ok(true)));
    assert!(matches!(run.advance(RunEvent::ClockStarted(1000)), RunAction::Poll));
    // The window answers in the third frame.
    for (now, elapsed, first) in [(1016, 16, false), (1032, 32, false), (1050, 50, true)] {
        match run.advance(RunEvent::Polled(now)) {
            RunAction::Render { elapsed_millis } => assert_eq!(elapsed_millis, elapsed),
            _ => panic!("no frame is rendered"),
        }
        assert!(matches!(
            run.advance(RunEvent::Rendered(Ok(true))),
            RunAction::TakePresentation
        ));
        match run.advance(RunEvent::PresentationTaken(Ok(first))) {
            RunAction::Sleep { millis, first_presentation } => {
                assert_eq!(millis, 16);
                assert_eq!(first_presentation, first);
            }
            _ => panic!("the program does not pause"),
        }
        assert!(matches!(run.advance(RunEvent::Slept), RunAction::Poll));
    }
    // From then on it is not asked again, and a clock that runs back is still.
    match run.advance(RunEvent::Polled(900)) {
        RunAction::Render { elapsed_millis } => assert_eq!(elapsed_millis, 0),
        _ => panic!("no frame is rendered"),
    }
    match run.advance(RunEvent::Rendered(Ok(false))) {
        RunAction::Sleep { first_presentation, .. } => assert!(!first_presentation),
        _ => panic!("the program does not pause"),
    }
}
