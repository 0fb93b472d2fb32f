//! The parts of an OCI runtime configuration that the runtime reads.

use std::collections::HashMap;

use vstd::prelude::*;
use vstd::string::*;

use crate::container::builder::{Config, ContainerConfig};
use crate::dialogue::{end_with, halted, heard, progress_of, Halt, Next, Part, Stop, Turn};
use crate::error::{fails_with, labelled, ContainerError, Failure};
use crate::host::text_of;
use crate::path::{entry_path, join, joined_path};
use crate::runtime::status::{RuntimeAnswer, RuntimeAsk, RuntimeCall, RuntimeProgress, RuntimeReply};
use crate::text::{copy_list, halves, halves_give_the_text, pair_views, split_once, views};

verus! {

/// A command that is run at a certain event in the lifecycle of a container.
#[derive(Debug)]
pub struct Hook {
    /// The program.
    pub path: String,
    /// The arguments; the first one stands for the program itself.
    pub args: Option<Vec<String>>,
    /// Environment variables in the form `key=value`.
    pub env: Option<Vec<String>>,
    /// The number of seconds after which the hook is aborted.
    pub timeout: Option<i64>,
}

/// What a [`Hook`] says, with texts as characters.
pub struct HookModel {
    pub path: Seq<char>,
    pub args: Option<Seq<Seq<char>>>,
    pub env: Option<Seq<Seq<char>>>,
    pub timeout: Option<i64>,
}

/// The characters of an optional list of texts.
pub open spec fn list_of(list: Option<Vec<String>>) -> Option<Seq<Seq<char>>> {
    match list {
        Some(list) => Some(views(list@)),
        None => None,
    }
}

impl View for Hook {
    type V = HookModel;

    open spec fn view(&self) -> HookModel {
        HookModel {
            path: self.path@,
            args: list_of(self.args),
            env: list_of(self.env),
            timeout: self.timeout,
        }
    }
}

fn copy_optional_list(list: &Option<Vec<String>>) -> (r: Option<Vec<String>>)
    ensures
        list_of(r) == list_of(*list),
{
    match list {
        Some(list) => Some(copy_list(list)),
        None => None,
    }
}

impl Clone for Hook {
    fn clone(&self) -> (r: Hook)
        ensures
            r@ == self@,
    {
        Hook {
            path: self.path.clone(),
            args: copy_optional_list(&self.args),
            env: copy_optional_list(&self.env),
            timeout: self.timeout,
        }
    }
}

/// What a list of hooks says.
pub open spec fn hook_models(hooks: Seq<Hook>) -> Seq<HookModel> {
    hooks.map_values(|hook: Hook| hook@)
}

/// What an optional list of hooks says.
pub open spec fn hooks_of(hooks: Option<Vec<Hook>>) -> Option<Seq<HookModel>> {
    match hooks {
        Some(hooks) => Some(hook_models(hooks@)),
        None => None,
    }
}

fn copy_hooks(hooks: &Option<Vec<Hook>>) -> (r: Option<Vec<Hook>>)
    ensures
        hooks_of(r) == hooks_of(*hooks),
{
    let list = match hooks {
        None => return None,
        Some(list) => list,
    };
    let ghost wanted = hook_models(list@);
    let mut r: Vec<Hook> = Vec::new();
    let mut i: usize = 0;
    while i < list.len()
        invariant
            i <= list@.len(),
            wanted == hook_models(list@),
            hook_models(r@) == wanted.take(i as int),
        decreases list@.len() - i,
    {
        let ghost before = hook_models(r@);
        r.push(list[i].clone());
        assert(hook_models(r@) =~= before.push(wanted[i as int]));
        assert(wanted.take(i + 1) =~= wanted.take(i as int).push(wanted[i as int]));
        i = i + 1;
    }
    assert(wanted.take(i as int) =~= wanted);
    Some(r)
}

/// The hooks of a configuration.
#[derive(Debug)]
pub struct OciHooks {
    pub prestart: Option<Vec<Hook>>,
    pub poststart: Option<Vec<Hook>>,
    pub poststop: Option<Vec<Hook>>,
}

/// What an [`OciHooks`] says.
pub struct HooksModel {
    pub prestart: Option<Seq<HookModel>>,
    pub poststart: Option<Seq<HookModel>>,
    pub poststop: Option<Seq<HookModel>>,
}

impl View for OciHooks {
    type V = HooksModel;

    open spec fn view(&self) -> HooksModel {
        HooksModel {
            prestart: hooks_of(self.prestart),
            poststart: hooks_of(self.poststart),
            poststop: hooks_of(self.poststop),
        }
    }
}

/// The process of a configuration.
#[derive(Debug)]
pub struct OciProcess {
    pub args: Option<Vec<String>>,
    pub env: Option<Vec<String>>,
}

/// What an [`OciProcess`] says.
pub struct ProcessModel {
    pub args: Option<Seq<Seq<char>>>,
    pub env: Option<Seq<Seq<char>>>,
}

impl View for OciProcess {
    type V = ProcessModel;

    open spec fn view(&self) -> ProcessModel {
        ProcessModel { args: list_of(self.args), env: list_of(self.env) }
    }
}

/// The parts of an OCI runtime configuration that the runtime reads.
#[derive(Debug)]
pub struct OciSpec {
    /// The version of the format.
    pub version: String,
    pub process: Option<OciProcess>,
    /// The path of the root filesystem.
    pub root_path: Option<String>,
    pub hostname: Option<String>,
    pub hooks: Option<OciHooks>,
    pub annotations: Option<HashMap<String, String>>,
}

/// What an [`OciSpec`] says, with texts as characters.
pub struct SpecModel {
    pub version: Seq<char>,
    pub process: Option<ProcessModel>,
    pub root_path: Option<Seq<char>>,
    pub hostname: Option<Seq<char>>,
    pub hooks: Option<HooksModel>,
    pub annotations: Option<Map<String, String>>,
}

impl View for OciSpec {
    type V = SpecModel;

    open spec fn view(&self) -> SpecModel {
        SpecModel {
            version: self.version@,
            process: match self.process {
                Some(process) => Some(process@),
                None => None,
            },
            root_path: text_of(self.root_path),
            hostname: text_of(self.hostname),
            hooks: match self.hooks {
                Some(hooks) => Some(hooks@),
                None => None,
            },
            annotations: match self.annotations {
                Some(annotations) => Some(annotations@),
                None => None,
            },
        }
    }
}

fn copy_text(text: &Option<String>) -> (r: Option<String>)
    ensures
        text_of(r) == text_of(*text),
{
    match text {
        Some(text) => Some(text.clone()),
        None => None,
    }
}

impl Clone for OciSpec {
    fn clone(&self) -> (r: OciSpec)
        ensures
            r@ == self@,
    {
        OciSpec {
            version: self.version.clone(),
            process: match &self.process {
                Some(process) => Some(
                    OciProcess {
                        args: copy_optional_list(&process.args),
                        env: copy_optional_list(&process.env),
                    },
                ),
                None => None,
            },
            root_path: copy_text(&self.root_path),
            hostname: copy_text(&self.hostname),
            hooks: match &self.hooks {
                Some(hooks) => Some(
                    OciHooks {
                        prestart: copy_hooks(&hooks.prestart),
                        poststart: copy_hooks(&hooks.poststart),
                        poststop: copy_hooks(&hooks.poststop),
                    },
                ),
                None => None,
            },
            annotations: match &self.annotations {
                Some(annotations) => Some(annotations.clone()),
                None => None,
            },
        }
    }
}

/// The environment variables that a list of texts in the form `key=value` sets.
/// Texts without an equals sign set none.
pub open spec fn variables(list: Seq<Seq<char>>) -> Seq<(Seq<char>, Seq<char>)>
    decreases list.len(),
{
    if list.len() == 0 {
        Seq::empty()
    } else {
        let front = variables(list.drop_last());
        match halves(list.last(), '=') {
            Some(pair) => front.push(pair),
            None => front,
        }
    }
}

/// The environment variables that a list of texts in the form `key=value` sets.
pub fn parse_variables(list: &Vec<String>) -> (r: Vec<(String, String)>)
    ensures
        pair_views(r@) == variables(views(list@)),
{
    let mut r: Vec<(String, String)> = Vec::new();
    let mut i: usize = 0;
    assert(views(list@).take(0) =~= Seq::empty());
    assert(pair_views(r@) =~= Seq::empty());
    while i < list.len()
        invariant
            i <= list@.len(),
            pair_views(r@) == variables(views(list@).take(i as int)),
        decreases list@.len() - i,
    {
        let ghost before = pair_views(r@);
        let ghost next = views(list@).take(i + 1);
        assert(next.drop_last() =~= views(list@).take(i as int));
        assert(next.last() == list@[i as int]@);
        if let Some((key, value)) = split_once(list[i].as_str(), '=') {
            r.push((key.to_owned(), value.to_owned()));
            assert(pair_views(r@) =~= before.push((key@, value@)));
        }
        i = i + 1;
    }
    assert(views(list@).take(i as int) =~= views(list@));
    r
}

/// What keeps a configuration from being started, if anything.
pub open spec fn spec_fault(spec: SpecModel) -> Option<Failure> {
    if spec.process is None {
        Some(Failure::Runtime("OCI spec is missing the 'process' section"@))
    } else if spec.process->Some_0.args is None || spec.process->Some_0.args->Some_0.len() == 0 {
        Some(Failure::Runtime("OCI process.args is empty"@))
    } else if spec.root_path is None {
        Some(Failure::Runtime("OCI spec is missing the 'root' section"@))
    } else {
        None
    }
}

/// The root filesystem of a configuration: its path is relative to the bundle
/// unless it is absolute.
pub open spec fn spec_rootfs(bundle: Seq<char>, spec: SpecModel) -> Seq<char> {
    joined_path(bundle, spec.root_path->Some_0)
}

/// The container configuration that an OCI configuration stands for.
pub open spec fn config_of(id: Seq<char>, bundle: Seq<char>, spec: SpecModel) -> Config {
    let process = spec.process->Some_0;
    Config {
        id,
        hostname: match spec.hostname {
            Some(hostname) => hostname,
            None => id,
        },
        command: process.args->Some_0,
        rootfs: Some(spec_rootfs(bundle, spec)),
        env: match process.env {
            Some(env) => variables(env),
            None => Seq::empty(),
        },
    }
}

fn runtime_error<T>(text: &str) -> (r: Result<T, ContainerError>)
    ensures
        r is Err,
        r->Err_0@ == Failure::Runtime(text@),
{
    Err(ContainerError::Runtime(text.to_owned()))
}

/// The container configuration that an OCI configuration stands for, and the path
/// of its root filesystem.
pub fn container_config_from_spec(id: &str, bundle: &str, spec: &OciSpec) -> (r: Result<
    (ContainerConfig, String),
    ContainerError,
>)
    ensures
        fails_with(r, spec_fault(spec@)),
        r is Ok ==> r->Ok_0.0@ == config_of(id@, bundle@, spec@) && r->Ok_0.1@ == spec_rootfs(
            bundle@,
            spec@,
        ),
{
    let process = match &spec.process {
        None => return runtime_error("OCI spec is missing the 'process' section"),
        Some(process) => process,
    };
    let command = match &process.args {
        None => return runtime_error("OCI process.args is empty"),
        Some(args) => copy_list(args),
    };
    assert(views(command@).len() == command@.len());
    if command.len() == 0 {
        return runtime_error("OCI process.args is empty");
    }
    let env = match &process.env {
        None => Vec::new(),
        Some(list) => parse_variables(list),
    };
    assert(process.env is None ==> pair_views(env@) =~= Seq::empty());
    let hostname = match &spec.hostname {
        None => id.to_owned(),
        Some(hostname) => hostname.clone(),
    };
    let rootfs = match &spec.root_path {
        None => return runtime_error("OCI spec is missing the 'root' section"),
        Some(path) => join(bundle, path.as_str()),
    };
    let config = ContainerConfig {
        id: id.to_owned(),
        hostname,
        command,
        rootfs: Some(rootfs.clone()),
        env,
    };
    Ok((config, rootfs))
}

/// The file with the configuration of a bundle.
pub open spec fn config_path(bundle: Seq<char>) -> Seq<char> {
    joined_path(bundle, "config.json"@)
}

/// How far the reading of a bundle's configuration has come. The answer to the
/// second question is the configuration.
pub open spec fn spec_progress(bundle: Seq<char>, answers: Seq<RuntimeAnswer>) -> RuntimeProgress {
    if answers.len() == 0 {
        RuntimeProgress::Ask(RuntimeAsk::Exists(config_path(bundle)))
    } else {
        match answers[0] {
            RuntimeAnswer::Exists(false) => RuntimeProgress::Halt(
                Halt::Fail(Failure::Runtime("config.json not found in bundle: "@ + bundle)),
            ),
            RuntimeAnswer::Exists(true) => if answers.len() == 1 {
                RuntimeProgress::Ask(RuntimeAsk::LoadSpec(config_path(bundle)))
            } else {
                match answers[1] {
                    RuntimeAnswer::Spec(_) => RuntimeProgress::Passed(answers.skip(2)),
                    RuntimeAnswer::Failed(error) => RuntimeProgress::Halt(
                        Halt::Fail(Failure::Runtime("failed to parse config.json: "@ + error)),
                    ),
                    _ => RuntimeProgress::Halt(Halt::Stray),
                }
            },
            _ => RuntimeProgress::Halt(Halt::Stray),
        }
    }
}

/// How far the reading of a bundle's configuration has come, with its answers
/// starting at `at`.
pub fn load_spec_part(bundle: &str, replies: &Vec<RuntimeReply>, at: usize) -> (r: Part<RuntimeCall>)
    requires
        at <= replies@.len(),
    ensures
        progress_of(r, replies@) == spec_progress(bundle@, heard(replies@).skip(at as int)),
        r is Passed ==> {
            &&& r->Passed_0 == at + 2
            &&& at + 2 <= replies@.len()
            &&& replies@[at + 1] is Spec
        },
{
    let ghost answers = heard(replies@).skip(at as int);
    let left: usize = replies.len() - at;
    let path = join(bundle, "config.json");
    if left == 0 {
        return Part::Ask(RuntimeCall::Exists(path));
    }
    assert(answers[0] == replies@[at as int]@);
    match &replies[at] {
        RuntimeReply::Exists(true) => {},
        RuntimeReply::Exists(false) => {
            return Part::Stop(
                Stop::Fail(
                    ContainerError::Runtime(labelled("config.json not found in bundle: ", bundle)),
                ),
            );
        },
        _ => return Part::Stop(Stop::Stray),
    }
    if left == 1 {
        return Part::Ask(RuntimeCall::LoadSpec(path));
    }
    assert(answers[1] == replies@[at + 1]@);
    match &replies[at + 1] {
        RuntimeReply::Spec(_) => {
            assert(answers.skip(2) =~= heard(replies@).skip(at + 2));
            Part::Passed(at + 2)
        },
        RuntimeReply::Failed(error) => Part::Stop(
            Stop::Fail(
                ContainerError::Runtime(labelled("failed to parse config.json: ", error.as_str())),
            ),
        ),
        _ => Part::Stop(Stop::Stray),
    }
}

/// The turn of the reading of a bundle's configuration after the answers so far.
pub open spec fn spec_turn(bundle: Seq<char>, answers: Seq<RuntimeAnswer>) -> Turn<
    RuntimeAsk,
    SpecModel,
> {
    match spec_progress(bundle, answers) {
        RuntimeProgress::Ask(ask) => Turn::Ask(ask),
        RuntimeProgress::Halt(halt) => halted(halt),
        RuntimeProgress::Passed(_) => Turn::Done(answers[1]->Spec_0),
    }
}

/// The dialogue that reads the configuration of a bundle. `replies` holds the
/// answers so far.
pub fn load_oci_spec(bundle: &str, replies: &Vec<RuntimeReply>) -> (r: Next<RuntimeCall, OciSpec>)
    ensures
        r@ == spec_turn(bundle@, heard(replies@)),
{
    assert(heard(replies@).skip(0) =~= heard(replies@));
    match load_spec_part(bundle, replies, 0) {
        Part::Ask(call) => Next::Ask(call),
        Part::Stop(stop) => end_with(stop),
        Part::Passed(_) => match &replies[1] {
            RuntimeReply::Spec(spec) => Next::Done(spec.clone()),
            _ => Next::Stray,
        },
    }
}

/// Whether `env` is the environment that a list of texts in the form `key=value` sets: it
/// has a pair for each text with an equals sign, in their order, whose two sides are the
/// sides of the first equals sign.
pub open spec fn sets_environment(
    list: Seq<Seq<char>>,
    env: Seq<(Seq<char>, Seq<char>)>,
) -> bool {
    let texts = list.filter(|text: Seq<char>| text.contains('='));
    &&& env.len() == texts.len()
    &&& forall|i: int|
        0 <= i < env.len() ==> texts[i] == (#[trigger] env[i]).0.push('=') + env[i].1
            && !env[i].0.contains('=')
}

/// The environment variables that a list of texts sets are all those that are in it, and
/// no others.
pub proof fn variables_are_those_of_the_list(list: Seq<Seq<char>>)
    ensures
        sets_environment(list, variables(list)),
    decreases list.len(),
{
    reveal(Seq::filter);
    let has = |text: Seq<char>| text.contains('=');
    if list.len() > 0 {
        let front = list.drop_last();
        let last = list.last();
        variables_are_those_of_the_list(front);
        halves_give_the_text(last, '=');
        let before = variables(front);
        let texts = list.filter(has);
        let env = variables(list);
        assert forall|i: int| 0 <= i < env.len() implies texts[i] == (#[trigger] env[i]).0.push('=')
            + env[i].1 && !env[i].0.contains('=') by {
            if i < before.len() {
                assert(env[i] == before[i]);
            }
        }
    }
}

/// A configuration that can be started has a command and a root filesystem. The container
/// is the one that it describes: its command, its environment variables, its hostname,
/// which is the id of the container when it names none, and its root filesystem, whose
/// path starts at the bundle unless it is absolute.
pub proof fn container_is_as_configured(id: Seq<char>, bundle: Seq<char>, spec: SpecModel)
    ensures
        (spec_fault(spec) is None) == {
            &&& spec.process is Some
            &&& spec.process->Some_0.args is Some
            &&& spec.process->Some_0.args->Some_0.len() > 0
            &&& spec.root_path is Some
        },
        spec_fault(spec) is None ==> {
            let config = config_of(id, bundle, spec);
            let process = spec.process->Some_0;
            let path = spec.root_path->Some_0;
            &&& config.id == id
            &&& config.command == process.args->Some_0
            &&& process.env is Some ==> sets_environment(process.env->Some_0, config.env)
            &&& process.env is None ==> config.env.len() == 0
            &&& spec.hostname is Some ==> config.hostname == spec.hostname->Some_0
            &&& spec.hostname is None ==> config.hostname == id
            &&& config.rootfs is Some
            &&& path.len() > 0 && path[0] == '/' ==> config.rootfs->Some_0 == path
            &&& !(path.len() > 0 && path[0] == '/') ==> config.rootfs->Some_0 == entry_path(
                bundle,
                path,
            )
        },
{
    if let Some(process) = spec.process {
        if let Some(list) = process.env {
            variables_are_those_of_the_list(list);
        }
    }
}

} // verus!
