use onboard::executable::infer_executable;
use onboard::manifest::{builder_args, manifest_for, probe_args, run_args};

#[test]
fn manifest_fields_are_exact() {
    let m = manifest_for("app.id".to_string(), "g1", "GameOne");
    assert_eq!(m.app_id, "app.id");
    assert_eq!(m.runtime, "org.freedesktop.Platform");
    assert_eq!(m.runtime_version, "22.08");
    assert_eq!(m.sdk, "org.freedesktop.Sdk");
    assert_eq!(m.command, "/app/publish/GameOne");
    assert_eq!(
        m.finish_args,
        vec![
            "--share=ipc".to_string(),
            "--socket=x11".to_string(),
            "--socket=pulseaudio".to_string(),
            "--share=network".to_string(),
            "--device=dri".to_string(),
            "--filesystem=/tmp/devcade/persistence.sock".to_string(),
        ]
    );
    assert_eq!(m.modules.len(), 1);
    assert_eq!(m.modules[0].name, "g1");
    assert_eq!(m.modules[0].build_system, "simple");
    assert_eq!(m.modules[0].build_commands, vec!["cp -r . /app/publish".to_string()]);
    assert_eq!(m.modules[0].sources.len(), 1);
    assert_eq!(m.modules[0].sources[0].kind, "dir");
    assert_eq!(m.modules[0].sources[0].path, "publish");
}

#[test]
fn external_invocation_arguments() {
    assert_eq!(probe_args("app.id"), vec!["info".to_string(), "app.id".to_string()]);
    assert_eq!(run_args("app.id"), vec!["run".to_string(), "app.id".to_string()]);
    assert_eq!(
        builder_args("/r/g1/state-dir", "/r/g1/build", "/r/g1/flatpak.yml"),
        vec![
            "--state-dir=/r/g1/state-dir".to_string(),
            "--force-clean".to_string(),
            "--user".to_string(),
            "--install".to_string(),
            "/r/g1/build".to_string(),
            "/r/g1/flatpak.yml".to_string(),
        ]
    );
}

#[test]
fn executable_prefers_runtime_descriptor() {
    let names = vec![
        "readme.txt".to_string(),
        "GameOne.runtimeconfig.json".to_string(),
        "Other.runtimeconfig.json".to_string(),
    ];
    assert_eq!(infer_executable(&names, "Fallback"), "GameOne");
}

#[test]
fn executable_falls_back_to_display_name() {
    let names = vec!["readme.txt".to_string(), "data.bin".to_string()];
    assert_eq!(infer_executable(&names, "GameOne"), "GameOne");
}

#[test]
fn executable_fallback_on_empty_listing() {
    let names: Vec<String> = Vec::new();
    assert_eq!(infer_executable(&names, "GameOne"), "GameOne");
}
