use fmod_audio::{AudioSystem, Directive, SoundBuilder, Status, Step};

type Pos = (f32, f32, f32);

fn cache() -> AudioSystem<(), u32> {
    let mut cache = AudioSystem::new((), String::new());
    cache.register_bank("weapons", 1, &vec!["event:/weapons/explosion".to_string()]);
    cache
}

#[test]
fn build_applies_position_then_params_in_order() {
    let cache = cache();
    let builder: SoundBuilder<Pos, f32> = cache.sound("explosion");
    let mut run = builder
        .with_param("size", 2.0)
        .with_position((1.0, 2.0, 3.0))
        .with_param("distance", 5.0)
        .build();
    assert_eq!(
        run.advance(Ok(())),
        Directive::Perform(Step::FindEvent("event:/weapons/explosion".to_string()))
    );
    assert_eq!(run.advance(Ok(())), Directive::Perform(Step::CreateInstance));
    assert_eq!(run.advance(Ok(())), Directive::Perform(Step::SetPosition((1.0, 2.0, 3.0))));
    assert_eq!(run.advance(Ok(())), Directive::Perform(Step::SetParameter("size".to_string(), 2.0)));
    assert_eq!(
        run.advance(Ok(())),
        Directive::Perform(Step::SetParameter("distance".to_string(), 5.0))
    );
    assert_eq!(run.advance(Ok(())), Directive::Finish { release: false });
}

#[test]
fn repeated_param_keeps_place_and_takes_new_value() {
    let cache = cache();
    let builder: SoundBuilder<Pos, f32> = SoundBuilder::new(&cache, "event:/weapons/explosion");
    let mut run = builder
        .with_params(&[("a", 1.0), ("b", 2.0), ("a", 3.0)])
        .build();
    run.advance(Ok(()));
    run.advance(Ok(()));
    assert_eq!(run.advance(Ok(())), Directive::Perform(Step::SetParameter("a".to_string(), 3.0)));
    assert_eq!(run.advance(Ok(())), Directive::Perform(Step::SetParameter("b".to_string(), 2.0)));
    assert_eq!(run.advance(Ok(())), Directive::Finish { release: false });
}

#[test]
fn failing_second_param_releases_instance() {
    let cache = cache();
    let builder: SoundBuilder<Pos, f32> = cache.sound("explosion");
    let mut run = builder.with_param("a", 1.0).with_param("b", 2.0).build();
    assert!(matches!(run.advance(Ok(())), Directive::Perform(Step::FindEvent(_))));
    assert_eq!(run.advance(Ok(())), Directive::Perform(Step::CreateInstance));
    assert_eq!(run.advance(Ok(())), Directive::Perform(Step::SetParameter("a".to_string(), 1.0)));
    assert_eq!(run.advance(Ok(())), Directive::Perform(Step::SetParameter("b".to_string(), 2.0)));
    assert_eq!(
        run.advance(Err(Status::InvalidParameterName)),
        Directive::Fail { release: true, error: Status::InvalidParameterName }
    );
    assert!(run.is_finished());
}

#[test]
fn failing_creation_releases_nothing() {
    let cache = cache();
    let builder: SoundBuilder<Pos, f32> = cache.sound("explosion");
    let mut run = builder.build();
    run.advance(Ok(()));
    assert_eq!(run.advance(Ok(())), Directive::Perform(Step::CreateInstance));
    assert_eq!(
        run.advance(Err(Status::Native(38))),
        Directive::Fail { release: false, error: Status::Native(38) }
    );
}

#[test]
fn unknown_event_fails_before_creation() {
    let cache = cache();
    let builder: SoundBuilder<Pos, f32> = cache.sound("nope");
    let mut run = builder.play_once();
    assert_eq!(run.advance(Ok(())), Directive::Perform(Step::FindEvent("nope".to_string())));
    assert_eq!(
        run.advance(Err(Status::EventNotFound)),
        Directive::Fail { release: false, error: Status::EventNotFound }
    );
}

#[test]
fn play_once_starts_then_releases() {
    let cache = cache();
    let builder: SoundBuilder<Pos, f32> = cache.sound("explosion");
    let mut run = builder.with_param("a", 1.0).play_once();
    run.advance(Ok(()));
    run.advance(Ok(()));
    assert_eq!(run.advance(Ok(())), Directive::Perform(Step::SetParameter("a".to_string(), 1.0)));
    assert_eq!(run.advance(Ok(())), Directive::Perform(Step::Start));
    assert_eq!(run.advance(Ok(())), Directive::Finish { release: true });
}

#[test]
fn failing_start_releases_instance() {
    let cache = cache();
    let builder: SoundBuilder<Pos, f32> = cache.sound("explosion");
    let mut run = builder.play_once();
    run.advance(Ok(()));
    run.advance(Ok(()));
    assert_eq!(run.advance(Ok(())), Directive::Perform(Step::Start));
    assert_eq!(
        run.advance(Err(Status::InvalidHandle)),
        Directive::Fail { release: true, error: Status::InvalidHandle }
    );
}
