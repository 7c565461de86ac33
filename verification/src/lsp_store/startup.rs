//! How a language server is started, from the search for its binary until it runs.
use vstd::prelude::*;

use crate::lsp_store::binary::{startup_failure, LanguageServerBinary};
use crate::lsp_store::servers::runs;
use crate::lsp_store::store::{is_cleaned, LspStore};

verus! {

/// How far the start of a server has come.
#[derive(Debug)]
pub enum StartupStage {
    FindingBinary,
    StartingProcess,
    ReadingConfiguration,
    ReadingOptions { configuration: String },
    PreparingParams { configuration: String },
    Initializing { configuration: String },
    Notifying,
    Ended,
}

/// A server that is being started.
#[derive(Debug)]
pub struct Startup {
    pub server_id: u64,
    /// The initialization options of the settings.
    pub override_options: Option<String>,
    pub stage: StartupStage,
}

/// The initialization options that a server gets.
#[derive(Debug)]
pub enum InitializationOptions {
    Missing,
    Given(String),
    /// Those of the settings are merged into those of the adapter.
    Merged { own: String, settings: String },
}

/// What comes back from outside.
#[derive(Debug)]
pub enum StartupEvent {
    BinaryFound(LanguageServerBinary),
    ProcessStarted,
    ConfigurationRead(String),
    /// The options of the adapter, if it has any.
    OptionsRead(Option<String>),
    ParamsPrepared,
    Initialized,
    Notified,
    /// What was asked for failed. The log is what the server wrote to its error output.
    Failed { error: String, log: String },
}

/// What is done next.
#[derive(Debug)]
pub enum StartupAction {
    StartProcess(LanguageServerBinary),
    ReadConfiguration,
    ReadOptions,
    PrepareParams(InitializationOptions),
    /// The messages of the server are listened to, and it is initialized.
    Initialize { configuration: String },
    /// The server is told of its configuration.
    Notify { configuration: String },
    /// The server runs.
    Run,
    /// The server failed, which is shown. One that could not be initialized is announced as
    /// removed.
    Fail { message: String, announce_removal: bool },
    /// The event does not belong to the stage.
    Ignore,
}

/// The options of the adapter with those of the settings.
pub open spec fn options_of(own: Option<String>, settings: Option<String>) -> InitializationOptions {
    match (own, settings) {
        (Some(own), Some(settings)) => InitializationOptions::Merged { own, settings },
        (Some(own), None) => InitializationOptions::Given(own),
        (None, Some(settings)) => InitializationOptions::Given(settings),
        (None, None) => InitializationOptions::Missing,
    }
}

/// What is shown when a server could not be started.
pub open spec fn failure_text(error: Seq<char>, log: Seq<char>) -> Seq<char> {
    if log.len() == 0 {
        error
    } else {
        error + "\n-- stderr --\n"@ + log
    }
}

/// The stage is followed by another on an event, with something to do. An event that does not
/// belong to the stage changes nothing.
pub open spec fn is_startup_step(
    startup: Startup,
    event: StartupEvent,
    stage: StartupStage,
    action: StartupAction,
) -> bool {
    match (startup.stage, event) {
        (StartupStage::Ended, _) => stage == startup.stage && action is Ignore,
        (_, StartupEvent::Failed { error, log }) => {
            &&& stage is Ended
            &&& action matches StartupAction::Fail { message, announce_removal } && message@
                == failure_text(error@, log@) && announce_removal == (startup.stage
                is Initializing)
        },
        (StartupStage::FindingBinary, StartupEvent::BinaryFound(binary)) => {
            stage is StartingProcess && action == StartupAction::StartProcess(binary)
        },
        (StartupStage::StartingProcess, StartupEvent::ProcessStarted) => {
            stage is ReadingConfiguration && action is ReadConfiguration
        },
        (StartupStage::ReadingConfiguration, StartupEvent::ConfigurationRead(configuration)) => {
            stage == (StartupStage::ReadingOptions { configuration }) && action is ReadOptions
        },
        (StartupStage::ReadingOptions { configuration }, StartupEvent::OptionsRead(own)) => {
            stage == (StartupStage::PreparingParams { configuration }) && action
                == StartupAction::PrepareParams(options_of(own, startup.override_options))
        },
        (StartupStage::PreparingParams { configuration }, StartupEvent::ParamsPrepared) => {
            stage == (StartupStage::Initializing { configuration }) && action
                == (StartupAction::Initialize { configuration })
        },
        (StartupStage::Initializing { configuration }, StartupEvent::Initialized) => {
            stage is Notifying && action == (StartupAction::Notify { configuration })
        },
        (StartupStage::Notifying, StartupEvent::Notified) => stage is Ended && action is Run,
        _ => stage == startup.stage && action is Ignore,
    }
}

impl Startup {
    pub fn new(server_id: u64, override_options: Option<String>) -> (startup: Startup)
        ensures
            startup == (Startup {
                server_id,
                override_options,
                stage: StartupStage::FindingBinary,
            }),
    {
        Startup { server_id, override_options, stage: StartupStage::FindingBinary }
    }
}

impl LspStore {
    /// Goes on with the start of a server. One that fails while it is initialized leaves
    /// nothing that it told of buffers.
    pub fn advance_startup(&mut self, startup: &mut Startup, event: StartupEvent) -> (action:
        StartupAction)
        requires
            old(self).well_formed(),
            !runs(old(self).local@, old(startup).server_id),
        ensures
            final(self).well_formed(),
            is_startup_step(*old(startup), event, final(startup).stage, action),
            final(startup).server_id == old(startup).server_id,
            final(startup).override_options == old(startup).override_options,
            if old(startup).stage is Initializing && event is Failed {
                is_cleaned(*old(self), old(startup).server_id, *final(self))
            } else {
                *final(self) == *old(self)
            },
    {
        let mut stage: StartupStage = StartupStage::Ended;
        std::mem::swap(&mut stage, &mut startup.stage);
        if let StartupStage::Ended = stage {
            return StartupAction::Ignore;
        }
        match event {
            StartupEvent::Failed { error, log } => {
                let announce_removal: bool = match stage {
                    StartupStage::Initializing { .. } => true,
                    _ => false,
                };
                if announce_removal {
                    self.cleanup_lsp_data(startup.server_id);
                }
                let message: String = startup_failure(error.as_str(), log.as_str());
                StartupAction::Fail { message, announce_removal }
            },
            _ => match (stage, event) {
                (StartupStage::FindingBinary, StartupEvent::BinaryFound(binary)) => {
                    startup.stage = StartupStage::StartingProcess;
                    StartupAction::StartProcess(binary)
                },
                (StartupStage::StartingProcess, StartupEvent::ProcessStarted) => {
                    startup.stage = StartupStage::ReadingConfiguration;
                    StartupAction::ReadConfiguration
                },
                (
                    StartupStage::ReadingConfiguration,
                    StartupEvent::ConfigurationRead(configuration),
                ) => {
                    startup.stage = StartupStage::ReadingOptions { configuration };
                    StartupAction::ReadOptions
                },
                (
                    StartupStage::ReadingOptions { configuration },
                    StartupEvent::OptionsRead(own),
                ) => {
                    startup.stage = StartupStage::PreparingParams { configuration };
                    let options: InitializationOptions = match (own, &startup.override_options) {
                        (Some(own), Some(settings)) => InitializationOptions::Merged {
                            own,
                            settings: settings.clone(),
                        },
                        (Some(own), None) => InitializationOptions::Given(own),
                        (None, Some(settings)) => InitializationOptions::Given(settings.clone()),
                        (None, None) => InitializationOptions::Missing,
                    };
                    StartupAction::PrepareParams(options)
                },
                (StartupStage::PreparingParams { configuration }, StartupEvent::ParamsPrepared) => {
                    startup.stage = StartupStage::Initializing {
                        configuration: configuration.clone(),
                    };
                    StartupAction::Initialize { configuration }
                },
                (StartupStage::Initializing { configuration }, StartupEvent::Initialized) => {
                    startup.stage = StartupStage::Notifying;
                    StartupAction::Notify { configuration }
                },
                (StartupStage::Notifying, StartupEvent::Notified) => StartupAction::Run,
                (stage, _) => {
                    startup.stage = stage;
                    StartupAction::Ignore
                },
            },
        }
    }
}

/// A server is told of the configuration that it was initialized with.
pub proof fn configuration_stays_the_same(
    startup: Startup,
    initializing: StartupStage,
    initialize: StartupAction,
    notifying: StartupStage,
    notify: StartupAction,
)
    requires
        startup.stage is PreparingParams,
        is_startup_step(startup, StartupEvent::ParamsPrepared, initializing, initialize),
        is_startup_step(
            Startup { stage: initializing, ..startup },
            StartupEvent::Initialized,
            notifying,
            notify,
        ),
    ensures
        initialize is Initialize,
        notify is Notify,
        notify->Notify_configuration == initialize->Initialize_configuration,
{
}
/// A failure ends the start at any stage but the last, with the error and the log, and is
/// announced as a removal only while the server is initialized. What it told of buffers is
/// dropped only then.
pub proof fn failures_end_the_start(
    store: &mut LspStore,
    startup: &mut Startup,
    error: String,
    log: String,
    action: StartupAction,
)
    requires
        call_ensures(
            LspStore::advance_startup,
            (store, startup, StartupEvent::Failed { error, log }),
            action,
        ),
    ensures
        old(startup).stage is Ended ==> action is Ignore && final(startup).stage is Ended,
        !(old(startup).stage is Ended) ==> {
            &&& final(startup).stage is Ended
            &&& action is Fail
            &&& log@.len() == 0 ==> action->message@ == error@
            &&& log@.len() > 0 ==> action->message@ == error@ + "\n-- stderr --\n"@ + log@
            &&& action->announce_removal == (old(startup).stage is Initializing)
        },
        !(old(startup).stage is Initializing) ==> *final(store) == *old(store),
        final(startup).server_id == old(startup).server_id,
        final(startup).override_options == old(startup).override_options,
{
}

/// The start goes from the binary to the process, the configuration, the options, the
/// parameters, the initialization and the notification, and the server runs after all of them.
pub proof fn starts_go_step_by_step(
    store: &mut LspStore,
    startup: &mut Startup,
    event: StartupEvent,
    action: StartupAction,
)
    requires
        call_ensures(LspStore::advance_startup, (store, startup, event), action),
        !(event is Failed),
    ensures
        *final(store) == *old(store),
        action is StartProcess <==> old(startup).stage is FindingBinary && event is BinaryFound,
        action is StartProcess ==> action->StartProcess_0 == event->BinaryFound_0 && final(startup).stage is StartingProcess,
        action is ReadConfiguration <==> old(startup).stage is StartingProcess
            && event is ProcessStarted,
        action is ReadConfiguration ==> final(startup).stage is ReadingConfiguration,
        action is ReadOptions <==> old(startup).stage is ReadingConfiguration
            && event is ConfigurationRead,
        action is ReadOptions ==> final(startup).stage is ReadingOptions && final(startup).stage->ReadingOptions_configuration == event->ConfigurationRead_0,
        action is PrepareParams <==> old(startup).stage is ReadingOptions && event is OptionsRead,
        action is PrepareParams ==> final(startup).stage is PreparingParams && final(startup).stage->PreparingParams_configuration == old(startup).stage->ReadingOptions_configuration,
        action is Initialize <==> old(startup).stage is PreparingParams && event is ParamsPrepared,
        action is Initialize ==> final(startup).stage is Initializing && final(startup).stage->Initializing_configuration == old(startup).stage->PreparingParams_configuration
            && action->Initialize_configuration == old(startup).stage->PreparingParams_configuration,
        action is Notify <==> old(startup).stage is Initializing && event is Initialized,
        action is Notify ==> final(startup).stage is Notifying && action->Notify_configuration
            == old(startup).stage->Initializing_configuration,
        action is Run <==> old(startup).stage is Notifying && event is Notified,
        action is Run ==> final(startup).stage is Ended,
        action is Ignore ==> *final(startup) == *old(startup),
        !(action is Fail),
{
}

/// A server gets the options of its adapter and those of the settings, where there are any.
pub proof fn options_of_adapter_and_settings_are_given(
    store: &mut LspStore,
    startup: &mut Startup,
    own: Option<String>,
    action: StartupAction,
)
    requires
        call_ensures(
            LspStore::advance_startup,
            (store, startup, StartupEvent::OptionsRead(own)),
            action,
        ),
        old(startup).stage is ReadingOptions,
    ensures
        action is PrepareParams,
        own is None && old(startup).override_options is None <==> action->PrepareParams_0
            is Missing,
        own is Some && old(startup).override_options is Some <==> action->PrepareParams_0
            is Merged,
        own is Some && old(startup).override_options is None ==> action->PrepareParams_0
            == InitializationOptions::Given(own->0),
        own is None && old(startup).override_options is Some ==> action->PrepareParams_0
            == InitializationOptions::Given(old(startup).override_options->0),
        action->PrepareParams_0 matches InitializationOptions::Merged { own: first, settings }
            ==> first == own->0 && settings == old(startup).override_options->0,
{
}

} // verus!
