//! How a language server is launched: which binary, with what arguments and in which
//! environment.
use vstd::prelude::*;

use crate::environment::{EnvVars, EnvView};
use crate::rel_path::{clone_texts, texts};

verus! {

/// What the settings say about a server's binary.
#[derive(Debug)]
pub struct BinarySettings {
    pub path: Option<String>,
    pub arguments: Option<Vec<String>>,
    pub env: Option<EnvVars>,
    pub ignore_system_version: Option<bool>,
}

/// What the settings say about a server.
#[derive(Debug)]
pub struct LspSettings {
    pub binary: Option<BinarySettings>,
    /// Whether versions before a release are fetched.
    pub pre_release: Option<bool>,
}

#[derive(Debug)]
pub struct LanguageServerBinary {
    pub path: String,
    pub arguments: Vec<String>,
    pub env: Option<EnvVars>,
}

/// Where the binary comes from.
#[derive(Debug)]
pub enum BinaryPlan {
    /// The settings name it. The path still has to be resolved against the worktree.
    Explicit { path: String },
    /// The adapter looks for it, or fetches it.
    Lookup { allow_path_lookup: bool, pre_release: bool },
}

/// What happens before the binary is looked for.
#[derive(Clone, Copy, Debug, PartialEq, Eq, Structural)]
pub struct TrustWait {
    /// The worktree has to become trusted first.
    pub wait: bool,
    /// After that the server is shown as starting.
    pub report_starting: bool,
}

/// How long a newer binary is waited for while there is an existing one, in seconds.
pub const SERVER_DOWNLOAD_TIMEOUT: u64 = 10;

pub open spec fn has_path(settings: LspSettings) -> bool {
    settings.binary is Some && settings.binary->0.path is Some
}

/// The environment of the shell, with what the binary and then what the settings add.
pub open spec fn launch_env(
    shell: EnvView,
    binary: Option<EnvVars>,
    settings: Option<EnvVars>,
) -> EnvView {
    let with_binary = match binary {
        Some(env) => shell.union_prefer_right(env@),
        None => shell,
    };
    match settings {
        Some(env) => with_binary.union_prefer_right(env@),
        None => with_binary,
    }
}

pub open spec fn settings_env(settings: LspSettings) -> Option<EnvVars> {
    match settings.binary {
        Some(binary) => binary.env,
        None => None,
    }
}

pub open spec fn settings_arguments(settings: LspSettings) -> Option<Vec<String>> {
    match settings.binary {
        Some(binary) => binary.arguments,
        None => None,
    }
}

impl LspSettings {
    /// Where the binary comes from: a path in the settings wins.
    pub fn binary_plan(&self) -> (plan: BinaryPlan)
        ensures
            plan == (if has_path(*self) {
                BinaryPlan::Explicit { path: self.binary->0.path->0 }
            } else {
                BinaryPlan::Lookup {
                    allow_path_lookup: !(self.binary is Some
                        && self.binary->0.ignore_system_version == Some(true)),
                    pre_release: self.pre_release == Some(true),
                }
            }),
    {
        let mut ignore_system_version: bool = false;
        if let Some(binary) = &self.binary {
            if let Some(path) = &binary.path {
                return BinaryPlan::Explicit { path: path.clone() };
            }
            if let Some(ignore) = binary.ignore_system_version {
                ignore_system_version = ignore;
            }
        }
        let pre_release: bool = match self.pre_release {
            Some(pre_release) => pre_release,
            None => false,
        };
        BinaryPlan::Lookup { allow_path_lookup: !ignore_system_version, pre_release }
    }

    /// What happens before. `trusted` says, for a server that was started while its
    /// worktree was not trusted, whether it is by now. A binary that is looked for shows
    /// its own progress.
    pub fn trust_wait(&self, trusted: Option<bool>) -> (wait: TrustWait)
        ensures
            wait == (TrustWait {
                wait: trusted == Some(false),
                report_starting: trusted is Some && has_path(*self),
            }),
    {
        let explicit: bool = match &self.binary {
            Some(binary) => binary.path.is_some(),
            None => false,
        };
        let wait: bool = match trusted {
            Some(trusted) => !trusted,
            None => false,
        };
        TrustWait { wait, report_starting: trusted.is_some() && explicit }
    }

    /// The binary that the settings name, launched in the environment of the shell with
    /// what the settings add.
    pub fn explicit_binary(&self, resolved_path: String, shell_env: EnvVars) -> (binary:
        LanguageServerBinary)
        ensures
            binary.path == resolved_path,
            binary.env is Some,
            binary.env->0@ == launch_env(shell_env@, None, settings_env(*self)),
            texts(binary.arguments@) == (match settings_arguments(*self) {
                Some(arguments) => texts(arguments@),
                None => Seq::empty(),
            }),
    {
        let mut env: EnvVars = shell_env;
        let mut arguments: Vec<String> = Vec::new();
        assert(texts(arguments@) =~= Seq::<Seq<char>>::empty());
        if let Some(settings) = &self.binary {
            if let Some(added) = &settings.env {
                env.extend(added);
            }
            if let Some(given) = &settings.arguments {
                arguments = clone_texts(given);
            }
        }
        LanguageServerBinary { path: resolved_path, arguments, env: Some(env) }
    }

    /// A binary that was found or fetched, launched in the environment of the shell with
    /// what the binary and then what the settings add. Arguments in the settings replace
    /// its own.
    pub fn found_binary(&self, found: LanguageServerBinary, shell_env: EnvVars) -> (binary:
        LanguageServerBinary)
        ensures
            binary.path == found.path,
            binary.env is Some,
            binary.env->0@ == launch_env(shell_env@, found.env, settings_env(*self)),
            texts(binary.arguments@) == (match settings_arguments(*self) {
                Some(arguments) => texts(arguments@),
                None => texts(found.arguments@),
            }),
    {
        let mut env: EnvVars = shell_env;
        if let Some(own) = &found.env {
            env.extend(own);
        }
        let mut arguments: Vec<String> = found.arguments;
        if let Some(settings) = &self.binary {
            if let Some(given) = &settings.arguments {
                arguments = clone_texts(given);
            }
            if let Some(added) = &settings.env {
                env.extend(added);
            }
        }
        LanguageServerBinary { path: found.path, arguments, env: Some(env) }
    }
}

/// What has come of looking for a binary: the one that is there, and one that was fetched
/// since.
#[derive(Debug)]
pub struct Found {
    pub existing: Result<LanguageServerBinary, String>,
    pub fetched: Fetched,
}

#[derive(Debug)]
pub enum Fetched {
    /// Nothing is fetched.
    Nothing,
    /// It took too long, and goes on in the background.
    TimedOut,
    Done(LanguageServerBinary),
    Failed(String),
}

/// The binary that is launched, before the settings are applied.
pub open spec fn chosen(found: Found) -> Result<LanguageServerBinary, String> {
    match found.fetched {
        Fetched::Nothing | Fetched::TimedOut => found.existing,
        Fetched::Done(binary) => Ok(binary),
        Fetched::Failed(error) => Err(error),
    }
}

impl LspSettings {
    /// The binary of a server, once its worktree is trusted. `explicit_path` is the path of
    /// the settings, resolved against the worktree; without one the adapter has looked for a
    /// binary.
    pub fn get_language_server_binary(
        &self,
        explicit_path: Option<String>,
        found: Found,
        shell_env: EnvVars,
    ) -> (binary: Result<LanguageServerBinary, String>)
        requires
            explicit_path is Some <==> has_path(*self),
        ensures
            match (explicit_path, chosen(found)) {
                (Some(path), _) => {
                    &&& binary is Ok
                    &&& binary->Ok_0.path == path
                    &&& binary->Ok_0.env is Some
                    &&& binary->Ok_0.env->0@ == launch_env(shell_env@, None, settings_env(*self))
                    &&& texts(binary->Ok_0.arguments@) == (match settings_arguments(*self) {
                        Some(arguments) => texts(arguments@),
                        None => Seq::empty(),
                    })
                },
                (None, Ok(own)) => {
                    &&& binary is Ok
                    &&& binary->Ok_0.path == own.path
                    &&& binary->Ok_0.env is Some
                    &&& binary->Ok_0.env->0@ == launch_env(
                        shell_env@,
                        own.env,
                        settings_env(*self),
                    )
                    &&& texts(binary->Ok_0.arguments@) == (match settings_arguments(*self) {
                        Some(arguments) => texts(arguments@),
                        None => texts(own.arguments@),
                    })
                },
                (None, Err(error)) => binary == Err::<LanguageServerBinary, String>(error),
            },
    {
        if let Some(path) = explicit_path {
            return Ok(self.explicit_binary(path, shell_env));
        }
        let own: Result<LanguageServerBinary, String> = match found.fetched {
            Fetched::Nothing => found.existing,
            Fetched::TimedOut => found.existing,
            Fetched::Done(binary) => Ok(binary),
            Fetched::Failed(error) => Err(error),
        };
        match own {
            Ok(own) => Ok(self.found_binary(own, shell_env)),
            Err(error) => Err(error),
        }
    }
}

/// Which adapters add to the configuration of a server: all but its own, in their order.
pub open spec fn others(adapters: Seq<String>, own: Seq<char>) -> Seq<int>
    decreases adapters.len(),
{
    if adapters.len() == 0 {
        Seq::empty()
    } else if adapters.last()@ == own {
        others(adapters.drop_last(), own)
    } else {
        others(adapters.drop_last(), own).push(adapters.len() - 1)
    }
}

/// Collects the adapters that add to the configuration of a server.
pub fn contributing_adapters(adapters: &Vec<String>, own: &str) -> (contributing: Vec<usize>)
    ensures
        contributing@.map_values(|i: usize| i as int) == others(adapters@, own@),
{
    let mut contributing: Vec<usize> = Vec::new();
    let mut i: usize = 0;
    assert(contributing@.map_values(|i: usize| i as int) =~= Seq::<int>::empty());
    while i < adapters.len()
        invariant
            i <= adapters@.len(),
            contributing@.map_values(|i: usize| i as int) == others(
                adapters@.take(i as int),
                own@,
            ),
        decreases adapters@.len() - i,
    {
        let ghost before = contributing@.map_values(|i: usize| i as int);
        assert(adapters@.take(i + 1).drop_last() =~= adapters@.take(i as int));
        assert(adapters@.take(i + 1).last() == adapters@[i as int]);
        if !crate::text::same_text(adapters[i].as_str(), own) {
            contributing.push(i);
            assert(contributing@.map_values(|i: usize| i as int) =~= before.push(i as int));
        }
        i += 1;
    }
    assert(adapters@.take(i as int) =~= adapters@);
    contributing
}

/// What the other adapters add, in their order. One that has nothing to add, or fails, is left
/// out.
pub open spec fn additions(answers: Seq<Result<Option<String>, String>>) -> Seq<String>
    decreases answers.len(),
{
    if answers.len() == 0 {
        Seq::empty()
    } else {
        let earlier = additions(answers.drop_last());
        match answers.last() {
            Ok(Some(addition)) => earlier.push(addition),
            _ => earlier,
        }
    }
}

/// Puts what the other adapters add behind what an adapter has of its own.
fn with_additions(own: String, answers: Vec<Result<Option<String>, String>>) -> (parts: Vec<String>)
    ensures
        parts@ == seq![own] + additions(answers@),
{
    let ghost given = answers@;
    let mut rest: Vec<Result<Option<String>, String>> = answers;
    let mut parts: Vec<String> = Vec::new();
    parts.push(own);
    assert(parts@ =~= seq![own] + additions(given.take(0)));
    while rest.len() > 0
        invariant
            rest@.len() <= given.len(),
            rest@ == given.skip(given.len() - rest@.len()),
            parts@ == seq![own] + additions(given.take(given.len() - rest@.len())),
        decreases rest@.len(),
    {
        let ghost done = given.len() - rest@.len();
        let answer: Result<Option<String>, String> = rest.remove(0);
        proof {
            assert(rest@ =~= given.skip(done + 1));
            assert(given.take(done + 1).drop_last() =~= given.take(done));
            assert(given.take(done + 1).last() == answer);
        }
        if let Ok(Some(addition)) = answer {
            parts.push(addition);
            assert(parts@ =~= seq![own] + additions(given.take(done)).push(addition));
        }
    }
    assert(given.take(given.len() as int) =~= given);
    parts
}

/// The initialization options of an adapter: its own, and what the other adapters add, each of
/// which is merged into what is before it. An adapter without options gets none, whatever the
/// others add.
pub fn initialization_options_for_adapter(
    own: Result<Option<String>, String>,
    answers: Vec<Result<Option<String>, String>>,
) -> (parts: Result<Option<Vec<String>>, String>)
    ensures
        match own {
            Err(error) => parts == Err::<Option<Vec<String>>, String>(error),
            Ok(None) => parts == Ok::<Option<Vec<String>>, String>(None),
            Ok(Some(own)) => parts matches Ok(Some(parts)) && parts@ == seq![own] + additions(
                answers@,
            ),
        },
{
    match own {
        Err(error) => Err(error),
        Ok(None) => Ok(None),
        Ok(Some(own)) => Ok(Some(with_additions(own, answers))),
    }
}

/// The workspace configuration of an adapter: its own, and what the other adapters add, each of
/// which is merged into what is before it.
pub fn workspace_configuration_for_adapter(
    own: Result<String, String>,
    answers: Vec<Result<Option<String>, String>>,
) -> (parts: Result<Vec<String>, String>)
    ensures
        match own {
            Err(error) => parts == Err::<Vec<String>, String>(error),
            Ok(own) => parts matches Ok(parts) && parts@ == seq![own] + additions(answers@),
        },
{
    match own {
        Err(error) => Err(error),
        Ok(own) => Ok(with_additions(own, answers)),
    }
}

/// What is shown when a server could not be started: the error, and what the server
/// wrote to its error output, if it wrote anything.
pub fn startup_failure(error: &str, log: &str) -> (message: String)
    ensures
        message@ == (if log@.len() == 0 {
            error@
        } else {
            error@ + "\n-- stderr --\n"@ + log@
        }),
{
    if log.is_empty() {
        error.to_owned()
    } else {
        crate::text::wrap_text(error, "\n-- stderr --\n", log)
    }
}

/// A variable that the settings set is what they set it to; one that only the binary
/// sets wins over the shell.
pub proof fn settings_take_precedence(
    shell: EnvView,
    binary: Option<EnvVars>,
    settings: Option<EnvVars>,
    name: Seq<char>,
)
    ensures
        settings matches Some(env) ==> env@.contains_key(name) ==> launch_env(
            shell,
            binary,
            settings,
        )[name] == env@[name],
        binary matches Some(own) ==> own@.contains_key(name) && (settings matches Some(env)
            ==> !env@.contains_key(name)) ==> launch_env(shell, binary, settings)[name]
            == own@[name],
        shell.contains_key(name) ==> launch_env(shell, binary, settings).contains_key(name),
{
}
/// A path in the settings decides. Without one a binary is looked for, on the path too unless
/// the settings rule it out, and versions before a release only count if they are asked for.
pub proof fn settings_decide_on_the_binary(settings: LspSettings, plan: BinaryPlan)
    requires
        call_ensures(LspSettings::binary_plan, (&settings,), plan),
    ensures
        plan is Explicit <==> settings.binary is Some && settings.binary->0.path is Some,
        plan is Explicit ==> Some(plan->Explicit_path) == settings.binary->0.path,
        plan is Lookup ==> (plan->pre_release <==> settings.pre_release == Some(true)),
        plan is Lookup && settings.binary is None ==> plan->allow_path_lookup,
        plan is Lookup && settings.binary is Some ==> (plan->allow_path_lookup
            <==> settings.binary->0.ignore_system_version != Some(true)),
{
}

/// A server waits while its worktree is not trusted, and only one that was started untrusted
/// with a path in the settings is shown as starting.
pub proof fn untrusted_worktrees_are_waited_for(
    settings: LspSettings,
    trusted: Option<bool>,
    wait: TrustWait,
)
    requires
        call_ensures(LspSettings::trust_wait, (&settings, trusted), wait),
    ensures
        wait.wait <==> trusted == Some(false),
        trusted is None ==> !wait.report_starting,
        settings.binary is None ==> !wait.report_starting,
        trusted is Some && settings.binary is Some ==> (wait.report_starting
            <==> settings.binary->0.path is Some),
{
}

/// The binary is that of the settings, else one that was fetched, else the existing one. One
/// that could not be fetched is an error, whatever exists.
pub proof fn fetched_binaries_replace_existing_ones(
    settings: LspSettings,
    explicit_path: Option<String>,
    found: Found,
    shell_env: EnvVars,
    binary: Result<LanguageServerBinary, String>,
)
    requires
        call_ensures(
            LspSettings::get_language_server_binary,
            (&settings, explicit_path, found, shell_env),
            binary,
        ),
    ensures
        explicit_path is Some ==> binary is Ok && binary->Ok_0.path == explicit_path->0,
        explicit_path is None ==> match found.fetched {
            Fetched::Done(own) => binary is Ok && binary->Ok_0.path == own.path,
            Fetched::Failed(error) => binary is Err && binary->Err_0 == error,
            _ => match found.existing {
                Ok(own) => binary is Ok && binary->Ok_0.path == own.path,
                Err(error) => binary is Err && binary->Err_0 == error,
            },
        },
        binary is Ok ==> binary->Ok_0.env is Some,
{
}

/// Arguments in the settings replace those of the binary; a binary of the settings has none of
/// its own.
pub proof fn settings_replace_arguments(
    settings: LspSettings,
    found: LanguageServerBinary,
    path: String,
    shell_env: EnvVars,
    explicit: LanguageServerBinary,
    binary: LanguageServerBinary,
)
    requires
        call_ensures(LspSettings::explicit_binary, (&settings, path, shell_env), explicit),
        call_ensures(LspSettings::found_binary, (&settings, found, shell_env), binary),
    ensures
        explicit.path == path,
        binary.path == found.path,
        settings.binary is None || settings.binary->0.arguments is None ==> {
            &&& explicit.arguments@.len() == 0
            &&& texts(binary.arguments@) == texts(found.arguments@)
        },
        settings.binary is Some && settings.binary->0.arguments is Some ==> {
            &&& texts(explicit.arguments@) == texts(settings.binary->0.arguments->0@)
            &&& texts(binary.arguments@) == texts(settings.binary->0.arguments->0@)
        },
{
    assert(texts(explicit.arguments@).len() == explicit.arguments@.len());
}

/// A variable is what the settings set it to, else what the binary sets it to, else what it is
/// in the shell; no other variables are set.
pub proof fn variables_come_from_settings_binary_and_shell(
    settings: LspSettings,
    found: LanguageServerBinary,
    path: String,
    shell_env: EnvVars,
    explicit: LanguageServerBinary,
    binary: LanguageServerBinary,
    name: Seq<char>,
)
    requires
        call_ensures(LspSettings::explicit_binary, (&settings, path, shell_env), explicit),
        call_ensures(LspSettings::found_binary, (&settings, found, shell_env), binary),
    ensures
        explicit.env is Some && binary.env is Some,
        settings.binary is Some && settings.binary->0.env is Some
            && settings.binary->0.env->0@.contains_key(name) ==> {
            &&& binary.env->0@.contains_key(name)
            &&& binary.env->0@[name] == settings.binary->0.env->0@[name]
            &&& explicit.env->0@.contains_key(name)
            &&& explicit.env->0@[name] == settings.binary->0.env->0@[name]
        },
        settings.binary is None || settings.binary->0.env is None
            || !settings.binary->0.env->0@.contains_key(name) ==> {
            &&& explicit.env->0@.contains_key(name) <==> shell_env@.contains_key(name)
            &&& shell_env@.contains_key(name) ==> explicit.env->0@[name] == shell_env@[name]
            &&& found.env is Some && found.env->0@.contains_key(name) ==> binary.env->0@.contains_key(
                name,
            ) && binary.env->0@[name] == found.env->0@[name]
            &&& found.env is None || !found.env->0@.contains_key(name) ==> {
                &&& binary.env->0@.contains_key(name) <==> shell_env@.contains_key(name)
                &&& shell_env@.contains_key(name) ==> binary.env->0@[name] == shell_env@[name]
            }
        },
{
}

proof fn others_are_the_other_adapters(adapters: Seq<String>, own: Seq<char>)
    ensures
        forall|k: int|
            0 <= k < others(adapters, own).len() ==> 0 <= #[trigger] others(adapters, own)[k]
                < adapters.len() && adapters[others(adapters, own)[k]]@ != own,
        forall|j: int, k: int|
            0 <= j < k < others(adapters, own).len() ==> #[trigger] others(adapters, own)[j]
                < #[trigger] others(adapters, own)[k],
        forall|i: int|
            0 <= i < adapters.len() && (#[trigger] adapters[i])@ != own ==> others(
                adapters,
                own,
            ).contains(i),
    decreases adapters.len(),
{
    if adapters.len() > 0 {
        let shorter = adapters.drop_last();
        others_are_the_other_adapters(shorter, own);
        let earlier = others(shorter, own);
        let all = others(adapters, own);
        assert forall|k: int| 0 <= k < all.len() implies 0 <= #[trigger] all[k] < adapters.len()
            && adapters[all[k]]@ != own by {
            if k < earlier.len() {
                assert(all[k] == earlier[k]);
                assert(shorter[earlier[k]] == adapters[earlier[k]]);
            }
        }
        assert forall|i: int|
            0 <= i < adapters.len() && (#[trigger] adapters[i])@ != own implies all.contains(i) by {
            if i < shorter.len() {
                assert(shorter[i] == adapters[i]);
                let k = choose|k: int| 0 <= k < earlier.len() && earlier[k] == i;
                assert(all[k] == i);
            } else {
                assert(all[all.len() - 1] == i);
            }
        }
    }
}

/// Exactly the adapters with another name contribute, in their order.
pub proof fn other_adapters_contribute(
    adapters: Vec<String>,
    own: &str,
    contributing: Vec<usize>,
    i: int,
    j: int,
    k: int,
)
    requires
        call_ensures(contributing_adapters, (&adapters, own), contributing),
    ensures
        0 <= i < adapters@.len() && adapters@[i]@ != own@ ==> exists|n: int|
            0 <= n < contributing@.len() && #[trigger] contributing@[n] == i,
        0 <= k < contributing@.len() ==> contributing@[k] < adapters@.len()
            && adapters@[contributing@[k] as int]@ != own@,
        0 <= j < k < contributing@.len() ==> contributing@[j] < contributing@[k],
{
    others_are_the_other_adapters(adapters@, own@);
    let all = contributing@.map_values(|i: usize| i as int);
    assert(all.len() == contributing@.len());
    assert(forall|n: int| 0 <= n < all.len() ==> #[trigger] all[n] == contributing@[n]);
    if 0 <= i < adapters@.len() && adapters@[i]@ != own@ {
        assert(all.contains(i));
        let n = choose|n: int| 0 <= n < all.len() && all[n] == i;
        assert(contributing@[n] == i);
    }
    if 0 <= k < contributing@.len() {
        assert(all[k] == contributing@[k]);
    }
    if 0 <= j < k < contributing@.len() {
        assert(all[j] < all[k]);
    }
}

/// The configuration starts with that of the adapter itself, and what each further adapter adds
/// comes behind it; an adapter that adds nothing or fails changes nothing. Options are
/// gathered in the same way, and only by an adapter that has some.
pub proof fn additions_come_behind(
    own: String,
    answers: Vec<Result<Option<String>, String>>,
    parts: Result<Vec<String>, String>,
    answer: Result<Option<String>, String>,
    more: Vec<Result<Option<String>, String>>,
    all: Result<Vec<String>, String>,
    options: Result<Option<Vec<String>>, String>,
)
    requires
        call_ensures(workspace_configuration_for_adapter, (Ok(own), answers), parts),
        call_ensures(workspace_configuration_for_adapter, (Ok(own), more), all),
        call_ensures(initialization_options_for_adapter, (Ok(Some(own)), answers), options),
        more@ == answers@.push(answer),
    ensures
        parts is Ok && all is Ok,
        parts->Ok_0@.len() > 0 && parts->Ok_0@[0] == own,
        answers@.len() == 0 ==> parts->Ok_0@ == seq![own],
        all->Ok_0@ == (match answer {
            Ok(Some(addition)) => parts->Ok_0@.push(addition),
            _ => parts->Ok_0@,
        }),
        options matches Ok(Some(gathered)) && gathered@ == parts->Ok_0@,
{
    assert(more@.drop_last() =~= answers@);
    let behind = additions(answers@);
    match answer {
        Ok(Some(addition)) => {
            assert(seq![own] + behind.push(addition) =~= (seq![own] + behind).push(addition));
        },
        _ => {},
    }
    if answers@.len() == 0 {
        assert(seq![own] + behind =~= seq![own]);
    }
}

/// An adapter that cannot say what it has fails, and one without options has none.
pub proof fn failures_of_the_adapter_are_kept(
    own: Result<Option<String>, String>,
    configuration: Result<String, String>,
    answers: Vec<Result<Option<String>, String>>,
    options: Result<Option<Vec<String>>, String>,
    parts: Result<Vec<String>, String>,
)
    requires
        call_ensures(initialization_options_for_adapter, (own, answers), options),
        call_ensures(workspace_configuration_for_adapter, (configuration, answers), parts),
    ensures
        own is Err <==> options is Err,
        own is Err ==> options->Err_0 == own->Err_0,
        own matches Ok(None) ==> options matches Ok(None),
        own matches Ok(Some(_)) ==> options matches Ok(Some(_)),
        configuration is Err <==> parts is Err,
        configuration is Err ==> parts->Err_0 == configuration->Err_0,
{
}

/// What is shown begins with the error and ends with the log, if there is any.
pub proof fn startup_failures_show_the_log(error: &str, log: &str, message: String)
    requires
        call_ensures(startup_failure, (error, log), message),
    ensures
        log@.len() == 0 ==> message@ == error@,
        log@.len() > 0 ==> message@ == error@ + "\n-- stderr --\n"@ + log@,
{
}

} // verus!
