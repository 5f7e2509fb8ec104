//! The sandbox manifest: the declarative description handed to the external
//! image builder, and the argument lists for the external probe, build and
//! run invocations. The capability set is fixed: IPC, display socket, audio
//! socket, network, GPU device, and one persistence-socket path — all other
//! filesystem access is denied by omission.
use vstd::prelude::*;
use vstd::string::*;

verus! {

/// One source of a build module: a directory copied verbatim.
pub struct SandboxSource {
    pub kind: String,
    pub path: String,
}

/// One build module: copies the unpacked artifact tree into the sandbox's
/// runtime root.
pub struct SandboxModule {
    pub name: String,
    pub build_system: String,
    pub build_commands: Vec<String>,
    pub sources: Vec<SandboxSource>,
}

/// The manifest for one game's isolated image.
pub struct SandboxManifest {
    pub app_id: String,
    pub runtime: String,
    pub runtime_version: String,
    pub sdk: String,
    pub command: String,
    pub finish_args: Vec<String>,
    pub modules: Vec<SandboxModule>,
}

/// Builds the manifest for a game: the given deterministic application
/// identity, the fixed base runtime/SDK pairing, a launch command pointing
/// at the located executable, the fixed capability set, and one module
/// copying the artifact tree.
pub fn manifest_for(app_id: String, game_id: &str, executable: &str) -> (m: SandboxManifest)
    ensures
        m.app_id == app_id,
        m.runtime@ == "org.freedesktop.Platform"@,
        m.runtime_version@ == "22.08"@,
        m.sdk@ == "org.freedesktop.Sdk"@,
        m.command@ == "/app/publish/"@ + executable@,
        m.finish_args@.len() == 6,
        m.finish_args@[0]@ == "--share=ipc"@,
        m.finish_args@[1]@ == "--socket=x11"@,
        m.finish_args@[2]@ == "--socket=pulseaudio"@,
        m.finish_args@[3]@ == "--share=network"@,
        m.finish_args@[4]@ == "--device=dri"@,
        m.finish_args@[5]@ == "--filesystem=/tmp/devcade/persistence.sock"@,
        m.modules@.len() == 1,
        m.modules@[0].name@ == game_id@,
        m.modules@[0].build_system@ == "simple"@,
        m.modules@[0].build_commands@.len() == 1,
        m.modules@[0].build_commands@[0]@ == "cp -r . /app/publish"@,
        m.modules@[0].sources@.len() == 1,
        m.modules@[0].sources@[0].kind@ == "dir"@,
        m.modules@[0].sources@[0].path@ == "publish"@,
{
    let mut command = String::from_str("/app/publish/");
    command.append(executable);
    let mut finish_args: Vec<String> = Vec::new();
    finish_args.push(String::from_str("--share=ipc"));
    finish_args.push(String::from_str("--socket=x11"));
    finish_args.push(String::from_str("--socket=pulseaudio"));
    finish_args.push(String::from_str("--share=network"));
    finish_args.push(String::from_str("--device=dri"));
    finish_args.push(String::from_str("--filesystem=/tmp/devcade/persistence.sock"));
    let mut build_commands: Vec<String> = Vec::new();
    build_commands.push(String::from_str("cp -r . /app/publish"));
    let mut sources: Vec<SandboxSource> = Vec::new();
    sources.push(
        SandboxSource { kind: String::from_str("dir"), path: String::from_str("publish") },
    );
    let mut modules: Vec<SandboxModule> = Vec::new();
    modules.push(
        SandboxModule {
            name: game_id.to_owned(),
            build_system: String::from_str("simple"),
            build_commands,
            sources,
        },
    );
    SandboxManifest {
        app_id,
        runtime: String::from_str("org.freedesktop.Platform"),
        runtime_version: String::from_str("22.08"),
        sdk: String::from_str("org.freedesktop.Sdk"),
        command,
        finish_args,
        modules,
    }
}

/// The arguments of the external probe asking whether an application
/// identity is already installed.
pub fn probe_args(app_id: &str) -> (v: Vec<String>)
    ensures
        v@.len() == 2,
        v@[0]@ == "info"@,
        v@[1]@ == app_id@,
{
    let mut v: Vec<String> = Vec::new();
    v.push(String::from_str("info"));
    v.push(app_id.to_owned());
    v
}

/// The arguments of the external build/install invocation: the builder's
/// state directory, a clean forced user install, the build output
/// directory, and the manifest path.
pub fn builder_args(state_dir: &str, build_dir: &str, manifest_path: &str) -> (v: Vec<String>)
    ensures
        v@.len() == 6,
        v@[0]@ == "--state-dir="@ + state_dir@,
        v@[1]@ == "--force-clean"@,
        v@[2]@ == "--user"@,
        v@[3]@ == "--install"@,
        v@[4]@ == build_dir@,
        v@[5]@ == manifest_path@,
{
    let mut state: String = String::from_str("--state-dir=");
    state.append(state_dir);
    let mut v: Vec<String> = Vec::new();
    v.push(state);
    v.push(String::from_str("--force-clean"));
    v.push(String::from_str("--user"));
    v.push(String::from_str("--install"));
    v.push(build_dir.to_owned());
    v.push(manifest_path.to_owned());
    v
}

/// The arguments of the final run-by-identity invocation.
pub fn run_args(app_id: &str) -> (v: Vec<String>)
    ensures
        v@.len() == 2,
        v@[0]@ == "run"@,
        v@[1]@ == app_id@,
{
    let mut v: Vec<String> = Vec::new();
    v.push(String::from_str("run"));
    v.push(app_id.to_owned());
    v
}

} // verus!
