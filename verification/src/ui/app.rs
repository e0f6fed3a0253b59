//! The state of the window, and what happens when something in it is clicked or typed.
use crate::peer::{is_random_uuid, new_id};
use crate::text::{decimal, decimal_string};
use crate::ui::client_manager::{new_managed, ClientStatus, ManagedClient, ManagedModel};
use crate::ui::config::{
    default_client, default_rule, ClientConfig, ClientConfigModel, ForwardRule, RuleModel, UiConfig,
};
use crate::ui::format::{parse_port, typed_port};
use vstd::prelude::*;

verus! {

/// A field of a forwarding, with what was typed or clicked into it.
#[derive(Debug)]
pub enum RuleEdit {
    LocalPort(String),
    Host(String),
    RemotePort(String),
    Enabled(bool),
}

/// What happens in the window.
#[derive(Debug)]
pub enum UiEvent {
    /// The log is to be cleared.
    ClearLogs,
    /// The filter of the log was typed.
    SetLogFilter(String),
    /// The log is to be hidden.
    HideLogs,
    /// The log is to be shown or hidden.
    ToggleLogs,
    /// A client was clicked in the list.
    Select(usize),
    /// A client is to be edited.
    EditClient(usize),
    /// A client is to be deleted, once that is confirmed.
    AskDeleteClient(usize),
    /// A client is to be started.
    StartClient(usize),
    /// A client is to be stopped.
    StopClient(usize),
    /// A client is to be added.
    OpenAddDialog,
    /// The name was typed in the dialog.
    DialogName(String),
    /// The server was typed in the dialog.
    DialogServer(String),
    /// The token was typed in the dialog.
    DialogToken(String),
    /// The agent was typed in the dialog.
    DialogAgent(String),
    /// A forwarding was edited in the dialog.
    DialogForward { index: usize, edit: RuleEdit },
    /// A forwarding is to be added in the dialog.
    DialogAddForward,
    /// The dialog was cancelled or closed.
    CancelDialog,
    /// The dialog is to be saved.
    SaveDialog,
    /// A forwarding of the selected client was edited.
    EditForward { index: usize, edit: RuleEdit },
    /// A forwarding of the selected client is to be deleted, once that is confirmed.
    AskDeleteForward(usize),
    /// A forwarding is to be added to the selected client.
    OpenAddForward,
    /// The forwarding that is to be added was edited.
    NewForward(RuleEdit),
    /// Adding a forwarding was cancelled or closed.
    CancelAddForward,
    /// The forwarding is to be added.
    AddForward,
    /// Deleting a client was confirmed.
    DeleteClient(usize),
    /// Deleting a forwarding of a client was confirmed.
    DeleteForward(usize, usize),
    /// A client has a new status.
    StatusChanged(usize, ClientStatus),
}

/// What is to be done outside of the window.
#[derive(Debug, Clone, Copy, PartialEq, Eq, Structural)]
pub enum Effect {
    /// Launch a client.
    Launch(usize),
    /// End what was launched for a client.
    Halt(usize),
    /// Forget a client.
    Forget(usize),
    /// Write the configuration.
    Save,
    /// Clear the log.
    ClearLogs,
}

/// The state of the window.
#[derive(Debug)]
pub struct RportApp {
    pub config: UiConfig,
    pub clients: Vec<ManagedClient>,
    pub selected_idx: Option<usize>,
    pub show_add_dialog: bool,
    pub edit_idx: Option<usize>,
    pub edit_config: ClientConfig,
    pub show_add_forward: bool,
    pub edit_forward: ForwardRule,
    pub status_message: Option<String>,
    pub confirm_delete_forward: Option<(usize, usize)>,
    pub confirm_delete_client: Option<usize>,
    pub show_logs: bool,
    pub log_filter: String,
}

/// What a [`RportApp`] says.
#[verifier::ext_equal]
pub struct AppModel {
    /// The clients as they were last saved.
    pub saved: Seq<ClientConfigModel>,
    pub clients: Seq<ManagedModel>,
    pub selected_idx: Option<usize>,
    pub show_add_dialog: bool,
    pub edit_idx: Option<usize>,
    pub edit_config: ClientConfigModel,
    pub show_add_forward: bool,
    pub edit_forward: RuleModel,
    pub status_message: Option<Seq<char>>,
    pub confirm_delete_forward: Option<(usize, usize)>,
    pub confirm_delete_client: Option<usize>,
    pub show_logs: bool,
    pub log_filter: Seq<char>,
}

impl DeepView for RportApp {
    type V = AppModel;

    open spec fn deep_view(&self) -> AppModel {
        AppModel {
            saved: self.config.deep_view(),
            clients: self.clients.deep_view(),
            selected_idx: self.selected_idx,
            show_add_dialog: self.show_add_dialog,
            edit_idx: self.edit_idx,
            edit_config: self.edit_config.deep_view(),
            show_add_forward: self.show_add_forward,
            edit_forward: self.edit_forward.deep_view(),
            status_message: self.status_message.deep_view(),
            confirm_delete_forward: self.confirm_delete_forward,
            confirm_delete_client: self.confirm_delete_client,
            show_logs: self.show_logs,
            log_filter: self.log_filter@,
        }
    }
}

/// The configurations of clients.
pub open spec fn configs(clients: Seq<ManagedModel>) -> Seq<ClientConfigModel> {
    clients.map_values(|c: ManagedModel| c.config)
}

/// The rule after a field of it was edited. What is not a port leaves the port as it was.
pub open spec fn edited(rule: RuleModel, edit: RuleEdit) -> RuleModel {
    match edit {
        RuleEdit::LocalPort(t) => RuleModel {
            local_port: typed_port(t@, rule.local_port),
            ..rule
        },
        RuleEdit::Host(t) => RuleModel { remote_host: t@, ..rule },
        RuleEdit::RemotePort(t) => RuleModel {
            remote_port: typed_port(t@, rule.remote_port),
            ..rule
        },
        RuleEdit::Enabled(b) => RuleModel { enabled: b, ..rule },
    }
}

/// Whether an edit of the selected client is saved: a port only if it has changed.
pub open spec fn is_saved(rule: RuleModel, edit: RuleEdit) -> bool {
    match edit {
        RuleEdit::LocalPort(_) => edited(rule, edit).local_port != rule.local_port,
        RuleEdit::RemotePort(_) => edited(rule, edit).remote_port != rule.remote_port,
        _ => true,
    }
}

/// A client after one of its forwardings was replaced.
pub open spec fn with_forwards(c: ManagedModel, forwards: Seq<RuleModel>) -> ManagedModel {
    ManagedModel { config: ClientConfigModel { forwards, ..c.config }, ..c }
}

/// The client that is selected once the client at `i` is gone and `n` are left.
pub open spec fn selection_after_delete(i: usize, n: int) -> Option<usize> {
    if n == 0 {
        None
    } else if i >= n {
        Some((n - 1) as usize)
    } else {
        Some(i)
    }
}

impl AppModel {
    /// What is selected is there.
    pub open spec fn wf(self) -> bool {
        self.selected_idx matches Some(i) ==> i < self.clients.len()
    }

    /// The state with this message in the status bar.
    pub open spec fn saying(self, before: Seq<char>, name: Seq<char>, after: Seq<char>) -> AppModel {
        AppModel { status_message: Some(before + name + after), ..self }
    }

    /// The state once the configuration was saved.
    pub open spec fn stored(self) -> AppModel {
        AppModel { saved: configs(self.clients), ..self }
    }

    /// The state with another client at `i`.
    pub open spec fn with_client(self, i: int, c: ManagedModel) -> AppModel {
        AppModel { clients: self.clients.update(i, c), ..self }
    }

    /// The state once the client of the dialog was added under this id.
    pub open spec fn client_added(self, id: Seq<char>) -> AppModel {
        let config = ClientConfigModel { id, ..self.edit_config };
        let more = AppModel {
            clients: self.clients.push(new_managed(config)),
            selected_idx: Some(self.clients.len() as usize),
            show_add_dialog: false,
            edit_config: default_client(),
            ..self
        };
        more.saying("Added client '"@, config.name, "'"@).stored()
    }

    /// The state once the client that is edited was changed to what the dialog says.
    pub open spec fn edit_committed(self) -> AppModel {
        match self.edit_idx {
            Some(i) => {
                let c = self.clients[i as int];
                let stopped = if c.status.running() {
                    c.stopped()
                } else {
                    c
                };
                let done = AppModel { edit_idx: None, ..self }.with_client(
                    i as int,
                    ManagedModel { config: self.edit_config, ..stopped },
                );
                done.saying("Updated client '"@, self.edit_config.name, "'"@).stored()
            },
            None => self,
        }
    }

    /// The state once a client was deleted.
    pub open spec fn client_deleted(self, i: usize) -> AppModel {
        let clients = self.clients.remove(i as int);
        AppModel {
            clients,
            selected_idx: selection_after_delete(i, clients.len() as int),
            ..self
        }.saying("Deleted client '"@, self.clients[i as int].config.name, "'"@).stored()
    }

    /// The state once a forwarding was deleted. A client that runs is started anew.
    pub open spec fn forward_deleted(self, i: usize, f: usize) -> AppModel {
        let c = self.clients[i as int];
        let less = with_forwards(c, c.config.forwards.remove(f as int));
        self.with_client(
            i as int,
            if c.status.running() {
                less.stopped().started()
            } else {
                less
            },
        ).stored()
    }

    /// The state once the forwarding of the dialog was added to the selected client. A client that
    /// runs is started anew.
    pub open spec fn forward_added(self) -> AppModel {
        let closed = AppModel { show_add_forward: false, ..self };
        match self.selected_idx {
            Some(i) => {
                let c = self.clients[i as int];
                let more = with_forwards(c, c.config.forwards.push(self.edit_forward));
                closed.with_client(
                    i as int,
                    if c.status.running() {
                        more.stopped().started()
                    } else {
                        more
                    },
                ).saying("Added forward rule to '"@, c.config.name, "'"@).stored()
            },
            None => closed,
        }
    }

    /// The state once a forwarding of the selected client was edited.
    pub open spec fn forward_edited(self, f: usize, edit: RuleEdit) -> AppModel {
        match self.selected_idx {
            Some(i) => {
                let c = self.clients[i as int];
                let rule = c.config.forwards[f as int];
                let done = self.with_client(
                    i as int,
                    with_forwards(
                        c,
                        c.config.forwards.update(f as int, edited(rule, edit)),
                    ),
                );
                if is_saved(rule, edit) {
                    done.stored()
                } else {
                    done
                }
            },
            None => self,
        }
    }

    /// Whether an event can happen in this state: what it speaks of is there.
    pub open spec fn possible(self, event: UiEvent) -> bool {
        match event {
            UiEvent::Select(i) => i < self.clients.len(),
            UiEvent::EditClient(i) => i < self.clients.len(),
            UiEvent::StatusChanged(i, _) => i < self.clients.len(),
            UiEvent::DeleteClient(i) => i < self.clients.len(),
            UiEvent::DeleteForward(i, f) => i < self.clients.len() && f
                < self.clients[i as int].config.forwards.len(),
            UiEvent::DialogForward { index, .. } => index < self.edit_config.forwards.len(),
            UiEvent::EditForward { index, .. } => self.selected_idx matches Some(i) && index
                < self.clients[i as int].config.forwards.len(),
            UiEvent::AskDeleteForward(_) => self.selected_idx is Some,
            UiEvent::SaveDialog => if self.show_add_dialog {
                self.clients.len() < usize::MAX
            } else {
                self.edit_idx matches Some(i) ==> i < self.clients.len()
            },
            _ => true,
        }
    }
}

/// What an event leads to. A client that is added gets the id `fresh`.
pub open spec fn ui_step(m: AppModel, event: UiEvent, fresh: Seq<char>) -> AppModel {
    match event {
        UiEvent::ClearLogs => m,
        UiEvent::SetLogFilter(t) => AppModel { log_filter: t@, ..m },
        UiEvent::HideLogs => AppModel { show_logs: false, ..m },
        UiEvent::ToggleLogs => AppModel { show_logs: !m.show_logs, ..m },
        UiEvent::Select(i) => AppModel { selected_idx: Some(i), ..m },
        UiEvent::EditClient(i) => AppModel {
            edit_idx: Some(i),
            edit_config: m.clients[i as int].config,
            ..m
        },
        UiEvent::AskDeleteClient(i) => AppModel { confirm_delete_client: Some(i), ..m },
        UiEvent::StartClient(i) => if i < m.clients.len() {
            m.with_client(i as int, m.clients[i as int].started()).saying(
                "Starting client '"@,
                m.clients[i as int].config.name,
                "'..."@,
            )
        } else {
            m
        },
        UiEvent::StopClient(i) => if i < m.clients.len() {
            m.with_client(i as int, m.clients[i as int].stopped()).saying(
                "Stopped client '"@,
                m.clients[i as int].config.name,
                "'"@,
            )
        } else {
            m
        },
        UiEvent::OpenAddDialog => AppModel {
            edit_config: default_client(),
            edit_idx: None,
            show_add_dialog: true,
            ..m
        },
        UiEvent::DialogName(t) => AppModel {
            edit_config: ClientConfigModel { name: t@, ..m.edit_config },
            ..m
        },
        UiEvent::DialogServer(t) => AppModel {
            edit_config: ClientConfigModel { server_addr: t@, ..m.edit_config },
            ..m
        },
        UiEvent::DialogToken(t) => AppModel {
            edit_config: ClientConfigModel { token: t@, ..m.edit_config },
            ..m
        },
        UiEvent::DialogAgent(t) => AppModel {
            edit_config: ClientConfigModel { agent_id: t@, ..m.edit_config },
            ..m
        },
        UiEvent::DialogForward { index, edit } => AppModel {
            edit_config: ClientConfigModel {
                forwards: m.edit_config.forwards.update(
                    index as int,
                    edited(m.edit_config.forwards[index as int], edit),
                ),
                ..m.edit_config
            },
            ..m
        },
        UiEvent::DialogAddForward => AppModel {
            edit_config: ClientConfigModel {
                forwards: m.edit_config.forwards.push(default_rule()),
                ..m.edit_config
            },
            ..m
        },
        UiEvent::CancelDialog => AppModel { show_add_dialog: false, edit_idx: None, ..m },
        UiEvent::SaveDialog => if m.show_add_dialog {
            m.client_added(fresh)
        } else {
            m.edit_committed()
        },
        UiEvent::EditForward { index, edit } => m.forward_edited(index, edit),
        UiEvent::AskDeleteForward(f) => AppModel {
            confirm_delete_forward: match m.selected_idx {
                Some(i) => Some((i, f)),
                None => m.confirm_delete_forward,
            },
            ..m
        },
        UiEvent::OpenAddForward => AppModel {
            edit_forward: default_rule(),
            show_add_forward: true,
            ..m
        },
        UiEvent::NewForward(edit) => AppModel { edit_forward: edited(m.edit_forward, edit), ..m },
        UiEvent::CancelAddForward => AppModel { show_add_forward: false, ..m },
        UiEvent::AddForward => m.forward_added(),
        UiEvent::DeleteClient(i) => m.client_deleted(i),
        UiEvent::DeleteForward(i, f) => m.forward_deleted(i, f),
        UiEvent::StatusChanged(i, status) => m.with_client(
            i as int,
            ManagedModel { status: status.deep_view(), ..m.clients[i as int] },
        ),
    }
}

/// `effects` with another one at the end, if `wanted`.
pub open spec fn with_effect(effects: Seq<Effect>, wanted: bool, e: Effect) -> Seq<Effect> {
    if wanted {
        effects.push(e)
    } else {
        effects
    }
}

/// What an event asks to be done outside of the window, in order.
pub open spec fn ui_effects(m: AppModel, event: UiEvent) -> Seq<Effect> {
    let none = Seq::<Effect>::empty();
    match event {
        UiEvent::ClearLogs => seq![Effect::ClearLogs],
        UiEvent::StartClient(i) => with_effect(
            none,
            i < m.clients.len() && !m.clients[i as int].status.running(),
            Effect::Launch(i),
        ),
        UiEvent::StopClient(i) => with_effect(none, i < m.clients.len(), Effect::Halt(i)),
        UiEvent::SaveDialog => if m.show_add_dialog {
            seq![Effect::Save]
        } else {
            match m.edit_idx {
                Some(i) => with_effect(
                    none,
                    m.clients[i as int].status.running(),
                    Effect::Halt(i),
                ).push(Effect::Save),
                None => none,
            }
        },
        UiEvent::EditForward { index, edit } => match m.selected_idx {
            Some(i) => with_effect(
                none,
                is_saved(m.clients[i as int].config.forwards[index as int], edit),
                Effect::Save,
            ),
            None => none,
        },
        UiEvent::AddForward => match m.selected_idx {
            Some(i) => with_effect(
                with_effect(none, m.clients[i as int].status.running(), Effect::Halt(i)).push(
                    Effect::Save,
                ),
                m.clients[i as int].status.running(),
                Effect::Launch(i),
            ),
            None => none,
        },
        UiEvent::DeleteClient(i) => with_effect(
            none,
            m.clients[i as int].status.running(),
            Effect::Halt(i),
        ).push(Effect::Forget(i)).push(Effect::Save),
        UiEvent::DeleteForward(i, _) => with_effect(
            with_effect(none, m.clients[i as int].status.running(), Effect::Halt(i)),
            m.clients[i as int].status.running(),
            Effect::Launch(i),
        ).push(Effect::Save),
        _ => none,
    }
}

/// Edits a field of a forwarding. Returns whether the edit is one that is saved.
fn edit_rule(rule: &mut ForwardRule, edit: RuleEdit) -> (r: bool)
    ensures
        final(rule).deep_view() == edited(old(rule).deep_view(), edit),
        r == is_saved(old(rule).deep_view(), edit),
{
    match edit {
        RuleEdit::LocalPort(t) => {
            let port = parse_port(t.as_str(), rule.local_port);
            let changed = port != rule.local_port;
            rule.local_port = port;
            changed
        },
        RuleEdit::Host(t) => {
            rule.remote_host = t;
            true
        },
        RuleEdit::RemotePort(t) => {
            let port = parse_port(t.as_str(), rule.remote_port);
            let changed = port != rule.remote_port;
            rule.remote_port = port;
            changed
        },
        RuleEdit::Enabled(b) => {
            rule.enabled = b;
            true
        },
    }
}

fn edit_rule_at(rules: &mut Vec<ForwardRule>, i: usize, edit: RuleEdit) -> (r: bool)
    requires
        i < old(rules)@.len(),
    ensures
        final(rules).deep_view() == old(rules).deep_view().update(
            i as int,
            edited(old(rules).deep_view()[i as int], edit),
        ),
        r == is_saved(old(rules).deep_view()[i as int], edit),
{
    let ghost before = rules.deep_view();
    let r = edit_rule(&mut rules[i], edit);
    proof {
        assert(rules.deep_view() =~= before.update(i as int, edited(before[i as int], edit)));
    }
    r
}

/// How many clients run.
pub open spec fn running_count(clients: Seq<ManagedModel>) -> nat
    decreases clients.len(),
{
    if clients.len() == 0 {
        0
    } else {
        running_count(clients.drop_last()) + if clients.last().status.running() {
            1nat
        } else {
            0
        }
    }
}

impl RportApp {
    /// The window as it opens, with these clients. The first one is selected.
    pub fn new(config: UiConfig) -> (r: RportApp)
        ensures
            r.deep_view().wf(),
            r.deep_view() == (AppModel {
                saved: config.deep_view(),
                clients: config.deep_view().map_values(|c: ClientConfigModel| new_managed(c)),
                selected_idx: if config.deep_view().len() > 0 {
                    Some(0usize)
                } else {
                    None
                },
                show_add_dialog: false,
                edit_idx: None,
                edit_config: default_client(),
                show_add_forward: false,
                edit_forward: default_rule(),
                status_message: None,
                confirm_delete_forward: None,
                confirm_delete_client: None,
                show_logs: true,
                log_filter: Seq::empty(),
            }),
    {
        let ghost all = config.deep_view();
        let ghost managed = |c: ClientConfigModel| new_managed(c);
        let mut clients: Vec<ManagedClient> = Vec::new();
        let mut i: usize = 0;
        while i < config.clients.len()
            invariant
                i <= config.clients@.len(),
                all == config.clients.deep_view(),
                managed == (|c: ClientConfigModel| new_managed(c)),
                clients.deep_view() == all.take(i as int).map_values(managed),
            decreases config.clients@.len() - i,
        {
            let ghost before = clients.deep_view();
            clients.push(ManagedClient::new(config.clients[i].clone()));
            proof {
                assert(clients.deep_view() =~= before.push(managed(all[i as int])));
                assert(clients.deep_view() =~= all.take(i + 1).map_values(managed));
            }
            i = i + 1;
        }
        proof {
            assert(all.take(all.len() as int) =~= all);
        }
        let selected_idx: Option<usize> = if clients.len() > 0 {
            Some(0)
        } else {
            None
        };
        RportApp {
            config,
            clients,
            selected_idx,
            show_add_dialog: false,
            edit_idx: None,
            edit_config: ClientConfig::default(),
            show_add_forward: false,
            edit_forward: ForwardRule::default(),
            status_message: None,
            confirm_delete_forward: None,
            confirm_delete_client: None,
            show_logs: true,
            log_filter: String::new(),
        }
    }

    /// Takes the configurations of the clients over as what is saved.
    fn save_config(&mut self)
        ensures
            final(self).deep_view() == old(self).deep_view().stored(),
            final(self).clients == old(self).clients,
    {
        let ghost all = self.clients.deep_view();
        let ghost config = |c: ManagedModel| c.config;
        let mut saved: Vec<ClientConfig> = Vec::new();
        let mut i: usize = 0;
        while i < self.clients.len()
            invariant
                *self == *old(self),
                i <= self.clients@.len(),
                all == self.clients.deep_view(),
                config == (|c: ManagedModel| c.config),
                saved.deep_view() == all.take(i as int).map_values(config),
            decreases self.clients@.len() - i,
        {
            let ghost before = saved.deep_view();
            saved.push(self.clients[i].config.clone());
            proof {
                assert(saved.deep_view() =~= before.push(config(all[i as int])));
                assert(saved.deep_view() =~= all.take(i + 1).map_values(config));
            }
            i = i + 1;
        }
        proof {
            assert(all.take(all.len() as int) =~= all);
        }
        self.config.clients = saved;
    }

    fn set_status(&mut self, before: &str, name: &str, after: &str)
        ensures
            final(self).deep_view() == old(self).deep_view().saying(before@, name@, after@),
            final(self).clients == old(self).clients,
    {
        self.status_message = Some(before.to_owned().concat(name).concat(after));
    }

    fn add_client(&mut self, id: String)
        requires
            old(self).clients@.len() < usize::MAX,
        ensures
            final(self).deep_view() == old(self).deep_view().client_added(id@),
    {
        let ghost before = self.clients.deep_view();
        self.edit_config.id = id;
        let config = self.edit_config.clone();
        let name = config.name.clone();
        let idx = self.clients.len();
        let c = ManagedClient::new(config);
        let ghost m = c.deep_view();
        self.clients.push(c);
        assert(self.clients.deep_view() =~= before.push(m));
        self.selected_idx = Some(idx);
        self.set_status("Added client '", name.as_str(), "'");
        self.save_config();
        self.show_add_dialog = false;
        self.edit_config = ClientConfig::default();
    }

    /// Stops a client if it runs. Returns whether it ran.
    fn halt(&mut self, i: usize) -> (r: bool)
        requires
            i < old(self).clients@.len(),
        ensures
            final(self).clients@.len() == old(self).clients@.len(),
            r == old(self).deep_view().clients[i as int].status.running(),
            final(self).deep_view() == old(self).deep_view().with_client(
                i as int,
                if r {
                    old(self).deep_view().clients[i as int].stopped()
                } else {
                    old(self).deep_view().clients[i as int]
                },
            ),
    {
        let ghost before = self.clients.deep_view();
        let running = self.clients[i].is_running();
        if running {
            self.clients[i].stop();
        }
        proof {
            assert(self.clients.deep_view() =~= before.update(
                i as int,
                if running {
                    before[i as int].stopped()
                } else {
                    before[i as int]
                },
            ));
        }
        running
    }

    fn launch(&mut self, i: usize) -> (r: bool)
        requires
            i < old(self).clients@.len(),
        ensures
            final(self).clients@.len() == old(self).clients@.len(),
            r == !old(self).deep_view().clients[i as int].status.running(),
            final(self).deep_view() == old(self).deep_view().with_client(
                i as int,
                old(self).deep_view().clients[i as int].started(),
            ),
    {
        let ghost before = self.clients.deep_view();
        let r = self.clients[i].start();
        proof {
            assert(self.clients.deep_view() =~= before.update(i as int, before[i as int].started()));
        }
        r
    }

    fn commit_edit(&mut self) -> (r: Vec<Effect>)
        requires
            old(self).edit_idx matches Some(i) ==> i < old(self).clients@.len(),
        ensures
            final(self).deep_view() == old(self).deep_view().edit_committed(),
            r@ == match old(self).edit_idx {
                Some(i) => with_effect(
                    Seq::<Effect>::empty(),
                    old(self).deep_view().clients[i as int].status.running(),
                    Effect::Halt(i),
                ).push(Effect::Save),
                None => Seq::<Effect>::empty(),
            },
    {
        let mut effects: Vec<Effect> = Vec::new();
        if let Some(i) = self.edit_idx {
            if self.halt(i) {
                effects.push(Effect::Halt(i));
            }
            let ghost before = self.clients.deep_view();
            self.clients[i].config = self.edit_config.clone();
            proof {
                let c = old(self).deep_view().clients[i as int];
                let c2 = ManagedModel {
                    config: self.edit_config.deep_view(),
                    ..before[i as int]
                };
                assert(self.clients.deep_view() =~= before.update(i as int, c2));
                assert(before.update(i as int, c2) =~= old(self).deep_view().clients.update(
                    i as int,
                    c2,
                ));
            }
            let name = self.edit_config.name.clone();
            self.set_status("Updated client '", name.as_str(), "'");
            self.save_config();
            effects.push(Effect::Save);
        }
        self.edit_idx = None;
        effects
    }

    fn edit_forward_of_selected(&mut self, f: usize, edit: RuleEdit) -> (r: Vec<Effect>)
        requires
            old(self).deep_view().wf(),
            old(self).deep_view().possible(UiEvent::EditForward { index: f, edit }),
        ensures
            final(self).deep_view() == old(self).deep_view().forward_edited(f, edit),
            r@ == ui_effects(old(self).deep_view(), UiEvent::EditForward { index: f, edit }),
    {
        let mut effects: Vec<Effect> = Vec::new();
        if let Some(i) = self.selected_idx {
            let ghost before = self.clients.deep_view();
            let ghost rules = before[i as int].config.forwards;
            let save = edit_rule_at(&mut self.clients[i].config.forwards, f, edit);
            proof {
                assert(self.clients.deep_view() =~= before.update(
                    i as int,
                    with_forwards(
                        before[i as int],
                        rules.update(f as int, edited(rules[f as int], edit)),
                    ),
                ));
            }
            if save {
                self.save_config();
                effects.push(Effect::Save);
            }
        }
        effects
    }

    fn add_forward(&mut self) -> (r: Vec<Effect>)
        requires
            old(self).deep_view().wf(),
        ensures
            final(self).deep_view() == old(self).deep_view().forward_added(),
            r@ == ui_effects(old(self).deep_view(), UiEvent::AddForward),
    {
        let mut effects: Vec<Effect> = Vec::new();
        if let Some(i) = self.selected_idx {
            let ghost c = self.deep_view().clients[i as int];
            let was_running = self.halt(i);
            if was_running {
                effects.push(Effect::Halt(i));
            }
            let ghost before = self.clients.deep_view();
            let ghost rules = before[i as int].config.forwards;
            let rule = self.edit_forward.clone();
            self.clients[i].config.forwards.push(rule);
            proof {
                assert(self.clients@[i as int].config.forwards.deep_view() =~= rules.push(
                    self.edit_forward.deep_view(),
                ));
                assert(self.clients.deep_view() =~= before.update(
                    i as int,
                    with_forwards(before[i as int], rules.push(self.edit_forward.deep_view())),
                ));
            }
            let name = self.clients[i].config.name.clone();
            self.set_status("Added forward rule to '", name.as_str(), "'");
            self.save_config();
            effects.push(Effect::Save);
            if was_running {
                let _ = self.launch(i);
                effects.push(Effect::Launch(i));
            }
            proof {
                let more = with_forwards(c, c.config.forwards.push(self.edit_forward.deep_view()));
                let last = if was_running {
                    more.stopped().started()
                } else {
                    more
                };
                assert(self.clients.deep_view() =~= old(self).deep_view().clients.update(
                    i as int,
                    last,
                ));
                assert(self.config.deep_view() =~= configs(self.clients.deep_view()));
            }
        }
        self.show_add_forward = false;
        effects
    }

    fn delete_client(&mut self, i: usize) -> (r: Vec<Effect>)
        requires
            i < old(self).clients@.len(),
        ensures
            final(self).deep_view() == old(self).deep_view().client_deleted(i),
            r@ == ui_effects(old(self).deep_view(), UiEvent::DeleteClient(i)),
    {
        let mut effects: Vec<Effect> = Vec::new();
        let name = self.clients[i].config.name.clone();
        if self.halt(i) {
            effects.push(Effect::Halt(i));
        }
        let ghost before = self.clients.deep_view();
        let _ = self.clients.remove(i);
        effects.push(Effect::Forget(i));
        proof {
            assert(self.clients.deep_view() =~= before.remove(i as int));
            assert(before.remove(i as int) =~= old(self).deep_view().clients.remove(i as int));
        }
        let left = self.clients.len();
        self.selected_idx = if left == 0 {
            None
        } else if i >= left {
            Some(left - 1)
        } else {
            Some(i)
        };
        self.set_status("Deleted client '", name.as_str(), "'");
        self.save_config();
        effects.push(Effect::Save);
        effects
    }

    fn delete_forward(&mut self, i: usize, f: usize) -> (r: Vec<Effect>)
        requires
            i < old(self).clients@.len(),
            f < old(self).clients@[i as int].config.forwards@.len(),
        ensures
            final(self).deep_view() == old(self).deep_view().forward_deleted(i, f),
            r@ == ui_effects(old(self).deep_view(), UiEvent::DeleteForward(i, f)),
    {
        let mut effects: Vec<Effect> = Vec::new();
        let ghost c = self.deep_view().clients[i as int];
        let was_running = self.halt(i);
        if was_running {
            effects.push(Effect::Halt(i));
        }
        let ghost before = self.clients.deep_view();
        let ghost rules = before[i as int].config.forwards;
        assert(self.clients@[i as int].config.forwards.deep_view() == rules);
        assert(rules.len() == self.clients@[i as int].config.forwards@.len());
        let _ = self.clients[i].config.forwards.remove(f);
        proof {
            assert(self.clients@[i as int].config.forwards.deep_view() =~= rules.remove(f as int));
            assert(self.clients.deep_view() =~= before.update(
                i as int,
                with_forwards(before[i as int], rules.remove(f as int)),
            ));
        }
        if was_running {
            let _ = self.launch(i);
            effects.push(Effect::Launch(i));
        }
        proof {
            let less = with_forwards(c, c.config.forwards.remove(f as int));
            let last = if was_running {
                less.stopped().started()
            } else {
                less
            };
            assert(self.clients.deep_view() =~= old(self).deep_view().clients.update(
                i as int,
                last,
            ));
        }
        self.save_config();
        effects.push(Effect::Save);
        effects
    }

    /// Takes in an event, and says what is to be done outside of the window. A client that is added
    /// gets the id `fresh`.
    pub fn update_as(&mut self, event: UiEvent, fresh: String) -> (r: Vec<Effect>)
        requires
            old(self).deep_view().wf(),
            old(self).deep_view().possible(event),
        ensures
            final(self).deep_view() == ui_step(old(self).deep_view(), event, fresh@),
            final(self).deep_view().wf(),
            r@ == ui_effects(old(self).deep_view(), event),
    {
        assert(self.clients.deep_view().len() == self.clients@.len());
        let mut effects: Vec<Effect> = Vec::new();
        match event {
            UiEvent::ClearLogs => {
                effects.push(Effect::ClearLogs);
            },
            UiEvent::SetLogFilter(t) => {
                self.log_filter = t;
            },
            UiEvent::HideLogs => {
                self.show_logs = false;
            },
            UiEvent::ToggleLogs => {
                self.show_logs = !self.show_logs;
            },
            UiEvent::Select(i) => {
                self.selected_idx = Some(i);
            },
            UiEvent::EditClient(i) => {
                self.edit_idx = Some(i);
                self.edit_config = self.clients[i].config.clone();
            },
            UiEvent::AskDeleteClient(i) => {
                self.confirm_delete_client = Some(i);
            },
            UiEvent::StartClient(i) => {
                if i < self.clients.len() {
                    let name = self.clients[i].config.name.clone();
                    if self.launch(i) {
                        effects.push(Effect::Launch(i));
                    }
                    self.set_status("Starting client '", name.as_str(), "'...");
                }
            },
            UiEvent::StopClient(i) => {
                if i < self.clients.len() {
                    let name = self.clients[i].config.name.clone();
                    let ghost before = self.clients.deep_view();
                    self.clients[i].stop();
                    proof {
                        assert(self.clients.deep_view() =~= before.update(
                            i as int,
                            before[i as int].stopped(),
                        ));
                    }
                    effects.push(Effect::Halt(i));
                    self.set_status("Stopped client '", name.as_str(), "'");
                }
            },
            UiEvent::OpenAddDialog => {
                self.edit_config = ClientConfig::default();
                self.edit_idx = None;
                self.show_add_dialog = true;
            },
            UiEvent::DialogName(t) => {
                self.edit_config.name = t;
            },
            UiEvent::DialogServer(t) => {
                self.edit_config.server_addr = t;
            },
            UiEvent::DialogToken(t) => {
                self.edit_config.token = t;
            },
            UiEvent::DialogAgent(t) => {
                self.edit_config.agent_id = t;
            },
            UiEvent::DialogForward { index, edit } => {
                let _ = edit_rule_at(&mut self.edit_config.forwards, index, edit);
            },
            UiEvent::DialogAddForward => {
                let ghost before = self.edit_config.forwards.deep_view();
                self.edit_config.forwards.push(ForwardRule::default());
                assert(self.edit_config.forwards.deep_view() =~= before.push(default_rule()));
            },
            UiEvent::CancelDialog => {
                self.show_add_dialog = false;
                self.edit_idx = None;
            },
            UiEvent::SaveDialog => {
                if self.show_add_dialog {
                    self.add_client(fresh);
                    effects.push(Effect::Save);
                } else {
                    effects = self.commit_edit();
                }
            },
            UiEvent::EditForward { index, edit } => {
                effects = self.edit_forward_of_selected(index, edit);
            },
            UiEvent::AskDeleteForward(f) => {
                if let Some(i) = self.selected_idx {
                    self.confirm_delete_forward = Some((i, f));
                }
            },
            UiEvent::OpenAddForward => {
                self.edit_forward = ForwardRule::default();
                self.show_add_forward = true;
            },
            UiEvent::NewForward(edit) => {
                let _ = edit_rule(&mut self.edit_forward, edit);
            },
            UiEvent::CancelAddForward => {
                self.show_add_forward = false;
            },
            UiEvent::AddForward => {
                effects = self.add_forward();
            },
            UiEvent::DeleteClient(i) => {
                effects = self.delete_client(i);
            },
            UiEvent::DeleteForward(i, f) => {
                effects = self.delete_forward(i, f);
            },
            UiEvent::StatusChanged(i, status) => {
                let ghost before = self.clients.deep_view();
                let ghost s = status.deep_view();
                self.clients[i].status = status;
                proof {
                    assert(self.clients.deep_view() =~= before.update(
                        i as int,
                        ManagedModel { status: s, ..before[i as int] },
                    ));
                }
            },
        }
        effects
    }

    /// Takes in an event, and says what is to be done outside of the window.
    pub fn update(&mut self, event: UiEvent) -> (r: Vec<Effect>)
        requires
            old(self).deep_view().wf(),
            old(self).deep_view().possible(event),
        ensures
            exists|fresh: Seq<char>|
                #[trigger] is_random_uuid(fresh) && final(self).deep_view() == ui_step(
                    old(self).deep_view(),
                    event,
                    fresh,
                ),
            final(self).deep_view().wf(),
            r@ == ui_effects(old(self).deep_view(), event),
    {
        let fresh = new_id();
        let ghost id = fresh@;
        let r = self.update_as(event, fresh);
        assert(is_random_uuid(id));
        r
    }

    /// The client whose deletion is to be confirmed now, if it is there. It is asked once.
    pub fn take_delete_client(&mut self) -> (r: Option<usize>)
        ensures
            final(self).deep_view() == (AppModel {
                confirm_delete_client: None,
                ..old(self).deep_view()
            }),
            r == match old(self).confirm_delete_client {
                Some(i) => if i < old(self).deep_view().clients.len() {
                    Some(i)
                } else {
                    None
                },
                None => None,
            },
    {
        assert(self.clients.deep_view().len() == self.clients@.len());
        let asked = self.confirm_delete_client;
        self.confirm_delete_client = None;
        match asked {
            Some(i) => if i < self.clients.len() {
                Some(i)
            } else {
                None
            },
            None => None,
        }
    }

    /// The forwarding whose deletion is to be confirmed now. It is asked once.
    pub fn take_delete_forward(&mut self) -> (r: Option<(usize, usize)>)
        ensures
            final(self).deep_view() == (AppModel {
                confirm_delete_forward: None,
                ..old(self).deep_view()
            }),
            r == old(self).confirm_delete_forward,
    {
        let asked = self.confirm_delete_forward;
        self.confirm_delete_forward = None;
        asked
    }

    /// What the status bar says of the clients.
    pub fn summary(&self) -> (r: String)
        ensures
            r@ == decimal(self.deep_view().clients.len()) + " clients, "@ + decimal(
                running_count(self.deep_view().clients),
            ) + " running"@,
    {
        let ghost all = self.clients.deep_view();
        let mut running: u64 = 0;
        let mut i: usize = 0;
        assert(all.take(0) =~= Seq::empty());
        while i < self.clients.len()
            invariant
                i <= self.clients@.len(),
                all == self.clients.deep_view(),
                running == running_count(all.take(i as int)),
                running <= i,
            decreases self.clients@.len() - i,
        {
            proof {
                assert(all.take(i + 1).drop_last() =~= all.take(i as int));
                assert(all.take(i + 1).last() == self.clients@[i as int].deep_view());
            }
            if self.clients[i].is_running() {
                running = running + 1;
            }
            i = i + 1;
        }
        assert(all.take(all.len() as int) =~= all);
        decimal_string(self.clients.len() as u64).concat(" clients, ").concat(
            decimal_string(running).as_str(),
        ).concat(" running")
    }

    /// The title of the dialog for a client, if it is open.
    pub fn dialog_title(&self) -> (r: Option<&'static str>)
        ensures
            match r {
                Some(t) => if self.show_add_dialog {
                    t@ == "Add Client"@
                } else {
                    self.edit_idx is Some && t@ == "Edit Client"@
                },
                None => !self.show_add_dialog && self.edit_idx is None,
            },
    {
        if self.show_add_dialog {
            Some("Add Client")
        } else if self.edit_idx.is_some() {
            Some("Edit Client")
        } else {
            None
        }
    }

    /// What the button for the log says.
    pub fn log_button(&self) -> (r: &'static str)
        ensures
            r@ == (if self.show_logs {
                "Hide Log"@
            } else {
                "Log"@
            }),
    {
        if self.show_logs {
            "Hide Log"
        } else {
            "Log"
        }
    }
}

/// Whatever is saved is what the window shows: an event that changes the configuration of a client
/// and asks for it to be saved leaves both the same.
pub proof fn law_saved_is_what_is_shown(m: AppModel, event: UiEvent, fresh: Seq<char>)
    requires
        m.wf(),
        m.possible(event),
        ui_effects(m, event).contains(Effect::Save),
    ensures
        ui_step(m, event, fresh).saved == configs(ui_step(m, event, fresh).clients),
{
    let effects = ui_effects(m, event);
    let k = choose|k: int| 0 <= k < effects.len() && effects[k] == Effect::Save;
}

/// Nothing is lost without being saved: an event that does not ask for the configuration to be
/// saved changes the configuration of no client.
pub proof fn law_unsaved_events_keep_configs(m: AppModel, event: UiEvent, fresh: Seq<char>)
    requires
        m.wf(),
        m.possible(event),
        !ui_effects(m, event).contains(Effect::Save),
    ensures
        configs(ui_step(m, event, fresh).clients) == configs(m.clients),
{
    let effects = ui_effects(m, event);
    if effects.len() > 0 && effects.last() == Effect::Save {
        assert(effects[effects.len() - 1] == Effect::Save);
    }
    match event {
        UiEvent::AddForward => {
            if m.selected_idx is Some {
                let i = m.selected_idx->Some_0;
                let head = with_effect(
                    Seq::<Effect>::empty(),
                    m.clients[i as int].status.running(),
                    Effect::Halt(i),
                );
                assert(effects[head.len() as int] == Effect::Save);
            }
        },
        UiEvent::EditForward { index, edit } => {
            let i = m.selected_idx->Some_0;
            let c = m.clients[i as int];
            let rule = c.config.forwards[index as int];
            assert(!is_saved(rule, edit)) by {
                if is_saved(rule, edit) {
                    assert(effects[0] == Effect::Save);
                }
            }
            assert(c.config.forwards.update(index as int, edited(rule, edit))
                =~= c.config.forwards);
        },
        _ => {},
    }
    assert(configs(ui_step(m, event, fresh).clients) =~= configs(m.clients));
}

/// What is selected stays valid, whatever happens.
pub proof fn law_selection_stays_valid(m: AppModel, event: UiEvent, fresh: Seq<char>)
    requires
        m.wf(),
        m.possible(event),
    ensures
        ui_step(m, event, fresh).wf(),
{
}

/// The client that an event speaks of, where it changes a client.
pub open spec fn changed_client(m: AppModel, event: UiEvent) -> Option<usize> {
    match event {
        UiEvent::StartClient(i) => Some(i),
        UiEvent::StopClient(i) => Some(i),
        UiEvent::StatusChanged(i, _) => Some(i),
        UiEvent::DeleteForward(i, _) => Some(i),
        UiEvent::EditForward { .. } | UiEvent::AddForward => m.selected_idx,
        UiEvent::SaveDialog => m.edit_idx,
        _ => None,
    }
}

/// An event changes the client that it speaks of and no other. Only adding and deleting a client
/// change how many there are.
pub proof fn law_events_change_one_client(m: AppModel, event: UiEvent, fresh: Seq<char>, j: int)
    requires
        m.wf(),
        m.possible(event),
        0 <= j < m.clients.len(),
        !(event is DeleteClient),
        !(event is SaveDialog && m.show_add_dialog),
    ensures
        ui_step(m, event, fresh).clients.len() == m.clients.len(),
        changed_client(m, event) != Some(j as usize) ==> ui_step(m, event, fresh).clients[j]
            == m.clients[j],
        changed_client(m, event) is None ==> ui_step(m, event, fresh).saved == m.saved,
{
}

/// A client that is added has what the dialog says under a fresh id, is not started, takes the last
/// place and is selected. The others stay as they were, and the dialog is closed and empty.
pub proof fn law_added_client(m: AppModel, fresh: Seq<char>, j: int)
    requires
        m.wf(),
        m.show_add_dialog,
        m.clients.len() < usize::MAX,
        0 <= j < m.clients.len() + 1,
    ensures
        ({
            let after = ui_step(m, UiEvent::SaveDialog, fresh);
            let c = after.clients.last();
            &&& after.clients.len() == m.clients.len() + 1
            &&& j < m.clients.len() ==> after.clients[j] == m.clients[j]
            &&& c.config.id == fresh
            &&& c.config.name == m.edit_config.name
            &&& c.config.server_addr == m.edit_config.server_addr
            &&& c.config.token == m.edit_config.token
            &&& c.config.agent_id == m.edit_config.agent_id
            &&& c.config.forwards == m.edit_config.forwards
            &&& c.status is Disconnected
            &&& after.selected_idx matches Some(i) && i == m.clients.len()
            &&& after.saved.len() == after.clients.len() && after.saved[j]
                == after.clients[j].config
            &&& !after.show_add_dialog
            &&& after.edit_config.name.len() == 0 && after.edit_config.forwards.len() == 0
            &&& ui_effects(m, UiEvent::SaveDialog) == seq![Effect::Save]
        }),
{
}

/// A client that was edited has exactly what the dialog says. One that runs is stopped for it. The
/// dialog is closed, and the change is saved.
pub proof fn law_edited_client(m: AppModel, fresh: Seq<char>, i: usize)
    requires
        m.wf(),
        !m.show_add_dialog,
        m.edit_idx == Some(i),
        i < m.clients.len(),
    ensures
        ({
            let after = ui_step(m, UiEvent::SaveDialog, fresh);
            let c = m.clients[i as int];
            let running = c.status is Connecting || c.status is Connected;
            &&& after.clients[i as int].config == m.edit_config
            &&& after.clients[i as int].stats == c.stats
            &&& after.clients[i as int].status == (if running {
                crate::ui::client_manager::StatusModel::Disconnected
            } else {
                c.status
            })
            &&& after.edit_idx is None
            &&& after.saved[i as int] == m.edit_config
            &&& after.selected_idx == m.selected_idx
            &&& ui_effects(m, UiEvent::SaveDialog) == if running {
                seq![Effect::Halt(i), Effect::Save]
            } else {
                seq![Effect::Save]
            }
        }),
{
    let c = m.clients[i as int];
    let effects = ui_effects(m, UiEvent::SaveDialog);
    if c.status.running() {
        assert(effects =~= seq![Effect::Halt(i), Effect::Save]);
    } else {
        assert(effects =~= seq![Effect::Save]);
    }
}

/// A client that is deleted is gone, and no other is: those before it stay, those after it move up
/// by one. One that runs is halted first.
pub proof fn law_deleted_client(m: AppModel, fresh: Seq<char>, i: usize, j: int)
    requires
        m.wf(),
        i < m.clients.len(),
        0 <= j < m.clients.len() - 1,
    ensures
        ({
            let after = ui_step(m, UiEvent::DeleteClient(i), fresh);
            &&& after.clients.len() == m.clients.len() - 1
            &&& j < i ==> after.clients[j] == m.clients[j]
            &&& j >= i ==> after.clients[j] == m.clients[j + 1]
            &&& after.saved[j] == after.clients[j].config
            &&& after.selected_idx matches Some(s) && (s == i || s == i - 1) && s < after.clients.len()
            &&& m.clients[i as int].status is Connecting || m.clients[i as int].status is Connected
                ==> ui_effects(m, UiEvent::DeleteClient(i)) == seq![
                Effect::Halt(i),
                Effect::Forget(i),
                Effect::Save,
            ]
            &&& m.clients[i as int].status is Disconnected || m.clients[i as int].status is Failed
                ==> ui_effects(m, UiEvent::DeleteClient(i)) == seq![Effect::Forget(i), Effect::Save]
        }),
{
    let effects = ui_effects(m, UiEvent::DeleteClient(i));
    if m.clients[i as int].status.running() {
        assert(effects =~= seq![Effect::Halt(i), Effect::Forget(i), Effect::Save]);
    } else {
        assert(effects =~= seq![Effect::Forget(i), Effect::Save]);
    }
}

/// The last client that is deleted leaves nothing selected.
pub proof fn law_last_client_deleted(m: AppModel, fresh: Seq<char>)
    requires
        m.clients.len() == 1,
    ensures
        ui_step(m, UiEvent::DeleteClient(0), fresh).clients.len() == 0,
        ui_step(m, UiEvent::DeleteClient(0), fresh).selected_idx is None,
        ui_step(m, UiEvent::DeleteClient(0), fresh).saved.len() == 0,
{
}

/// Whether a client runs, and what it becomes once its forwardings were changed: one that runs is
/// connecting anew.
pub open spec fn restarted_as(before: ManagedModel, after: ManagedModel) -> bool {
    &&& before.status is Connecting || before.status is Connected ==> after.status is Connecting
    &&& before.status is Disconnected || before.status is Failed ==> after.status == before.status
    &&& after.stats == before.stats
    &&& after.config.id == before.config.id
    &&& after.config.name == before.config.name
    &&& after.config.server_addr == before.config.server_addr
    &&& after.config.token == before.config.token
    &&& after.config.agent_id == before.config.agent_id
}

/// A forwarding that is deleted is gone, the others of its client stay in their order, and all else
/// of the client is as it was. A client that runs is started anew.
pub proof fn law_deleted_forward(m: AppModel, fresh: Seq<char>, i: usize, f: usize)
    requires
        m.wf(),
        m.possible(UiEvent::DeleteForward(i, f)),
    ensures
        ({
            let event = UiEvent::DeleteForward(i, f);
            let before = m.clients[i as int];
            let after = ui_step(m, event, fresh).clients[i as int];
            &&& after.config.forwards == before.config.forwards.take(f as int)
                + before.config.forwards.skip(f + 1)
            &&& restarted_as(before, after)
            &&& ui_step(m, event, fresh).saved[i as int] == after.config
            &&& before.status is Connecting || before.status is Connected ==> ui_effects(m, event)
                == seq![Effect::Halt(i), Effect::Launch(i), Effect::Save]
            &&& before.status is Disconnected || before.status is Failed ==> ui_effects(m, event)
                == seq![Effect::Save]
        }),
{
    let event = UiEvent::DeleteForward(i, f);
    let before = m.clients[i as int];
    assert(before.config.forwards.remove(f as int) =~= before.config.forwards.take(f as int)
        + before.config.forwards.skip(f + 1));
    if before.status.running() {
        assert(ui_effects(m, event) =~= seq![Effect::Halt(i), Effect::Launch(i), Effect::Save]);
    } else {
        assert(ui_effects(m, event) =~= seq![Effect::Save]);
    }
}

/// A forwarding that is added comes last among those of the selected client, as the dialog says it,
/// and all else of the client is as it was. A client that runs is started anew.
pub proof fn law_added_forward(m: AppModel, fresh: Seq<char>, i: usize)
    requires
        m.wf(),
        m.selected_idx == Some(i),
    ensures
        ({
            let before = m.clients[i as int];
            let after = ui_step(m, UiEvent::AddForward, fresh).clients[i as int];
            &&& after.config.forwards == before.config.forwards.push(m.edit_forward)
            &&& restarted_as(before, after)
            &&& ui_step(m, UiEvent::AddForward, fresh).saved[i as int] == after.config
            &&& !ui_step(m, UiEvent::AddForward, fresh).show_add_forward
            &&& before.status is Connecting || before.status is Connected ==> ui_effects(
                m,
                UiEvent::AddForward,
            ) == seq![Effect::Halt(i), Effect::Save, Effect::Launch(i)]
            &&& before.status is Disconnected || before.status is Failed ==> ui_effects(
                m,
                UiEvent::AddForward,
            ) == seq![Effect::Save]
        }),
{
    let before = m.clients[i as int];
    let effects = ui_effects(m, UiEvent::AddForward);
    if before.status.running() {
        assert(effects =~= seq![Effect::Halt(i), Effect::Save, Effect::Launch(i)]);
    } else {
        assert(effects =~= seq![Effect::Save]);
    }
}

/// What is typed into a field of a forwarding goes into that field, a port only if it is one, and
/// the other fields stay.
pub proof fn law_edits_go_into_their_field(rule: RuleModel, edit: RuleEdit)
    ensures
        ({
            let r = edited(rule, edit);
            &&& edit matches RuleEdit::LocalPort(t) ==> {
                &&& crate::text::number_of(t@) matches Ok(n) ==> r.local_port == n
                &&& crate::text::number_of(t@) is Err ==> r.local_port == rule.local_port
            }
            &&& edit matches RuleEdit::RemotePort(t) ==> {
                &&& crate::text::number_of(t@) matches Ok(n) ==> r.remote_port == n
                &&& crate::text::number_of(t@) is Err ==> r.remote_port == rule.remote_port
            }
            &&& edit matches RuleEdit::Host(t) ==> r.remote_host == t@
            &&& edit matches RuleEdit::Enabled(b) ==> r.enabled == b
            &&& !(edit is LocalPort) ==> r.local_port == rule.local_port
            &&& !(edit is RemotePort) ==> r.remote_port == rule.remote_port
            &&& !(edit is Host) ==> r.remote_host == rule.remote_host
            &&& !(edit is Enabled) ==> r.enabled == rule.enabled
        }),
{
    match edit {
        RuleEdit::LocalPort(t) => {
            crate::text::lemma_number_fits(t@);
        },
        RuleEdit::RemotePort(t) => {
            crate::text::lemma_number_fits(t@);
        },
        _ => {},
    }
}

/// An edit of a forwarding of the selected client changes that forwarding by the edit, leaves the
/// others and how the client is doing, and is saved if it changes anything of the ports.
pub proof fn law_edited_forward(m: AppModel, fresh: Seq<char>, i: usize, f: usize, edit: RuleEdit, k: int)
    requires
        m.wf(),
        m.selected_idx == Some(i),
        f < m.clients[i as int].config.forwards.len(),
        0 <= k < m.clients[i as int].config.forwards.len(),
    ensures
        ({
            let event = UiEvent::EditForward { index: f, edit };
            let before = m.clients[i as int];
            let after = ui_step(m, event, fresh).clients[i as int];
            &&& after.config.forwards.len() == before.config.forwards.len()
            &&& k == f ==> after.config.forwards[k] == edited(before.config.forwards[k], edit)
            &&& k != f ==> after.config.forwards[k] == before.config.forwards[k]
            &&& after.status == before.status && after.stats == before.stats
            &&& after.config.name == before.config.name && after.config.id == before.config.id
            &&& edit is Host || edit is Enabled ==> ui_effects(m, event) == seq![Effect::Save]
            &&& edited(before.config.forwards[f as int], edit) != before.config.forwards[f as int]
                ==> ui_effects(m, event) == seq![Effect::Save]
        }),
{
    let event = UiEvent::EditForward { index: f, edit };
    let rule = m.clients[i as int].config.forwards[f as int];
    law_edits_go_into_their_field(rule, edit);
    if is_saved(rule, edit) {
        assert(ui_effects(m, event) =~= seq![Effect::Save]);
    }
}

/// What is typed in the dialog goes into the field that it is typed in, and the others stay. Nothing
/// of it touches a client before it is saved.
pub proof fn law_dialog_fields(m: AppModel, event: UiEvent, fresh: Seq<char>)
    requires
        m.possible(event),
        event is DialogName || event is DialogServer || event is DialogToken || event is DialogAgent
            || event is DialogForward || event is DialogAddForward,
    ensures
        ({
            let a = ui_step(m, event, fresh);
            let c = a.edit_config;
            let d = m.edit_config;
            &&& a.clients == m.clients && a.saved == m.saved && a.selected_idx == m.selected_idx
            &&& a.show_add_dialog == m.show_add_dialog && a.edit_idx == m.edit_idx
            &&& ui_effects(m, event).len() == 0
            &&& c.id == d.id
            &&& event matches UiEvent::DialogName(t) ==> c.name == t@
            &&& event matches UiEvent::DialogServer(t) ==> c.server_addr == t@
            &&& event matches UiEvent::DialogToken(t) ==> c.token == t@
            &&& event matches UiEvent::DialogAgent(t) ==> c.agent_id == t@
            &&& !(event is DialogName) ==> c.name == d.name
            &&& !(event is DialogServer) ==> c.server_addr == d.server_addr
            &&& !(event is DialogToken) ==> c.token == d.token
            &&& !(event is DialogAgent) ==> c.agent_id == d.agent_id
            &&& event is DialogAddForward ==> c.forwards.len() == d.forwards.len() + 1
                && c.forwards.drop_last() == d.forwards
            &&& event matches UiEvent::DialogForward { index, edit } ==> c.forwards.len()
                == d.forwards.len() && c.forwards[index as int] == edited(
                d.forwards[index as int],
                edit,
            ) && forall|k: int|
                0 <= k < d.forwards.len() && k != index ==> c.forwards[k] == d.forwards[k]
            &&& !(event is DialogForward || event is DialogAddForward) ==> c.forwards == d.forwards
        }),
{
    assert(m.edit_config.forwards.push(default_rule()).drop_last() =~= m.edit_config.forwards);
}

/// Starting launches a client that does not run, stopping halts it, and only how it is doing changes.
/// A new status of a client is that status.
pub proof fn law_start_stop_and_status(
    m: AppModel,
    fresh: Seq<char>,
    i: usize,
    status: ClientStatus,
)
    requires
        i < m.clients.len(),
    ensures
        ({
            let c = m.clients[i as int];
            let on = ui_step(m, UiEvent::StartClient(i), fresh).clients[i as int];
            let off = ui_step(m, UiEvent::StopClient(i), fresh).clients[i as int];
            let new = ui_step(m, UiEvent::StatusChanged(i, status), fresh).clients[i as int];
            &&& on.config == c.config && off.config == c.config && new.config == c.config
            &&& on.stats == c.stats && off.stats == c.stats && new.stats == c.stats
            &&& new.status == status.deep_view()
            &&& off.status is Disconnected
            &&& ui_effects(m, UiEvent::StopClient(i)) == seq![Effect::Halt(i)]
            &&& c.status is Disconnected || c.status is Failed ==> on.status is Connecting
                && ui_effects(m, UiEvent::StartClient(i)) == seq![Effect::Launch(i)]
            &&& c.status is Connecting || c.status is Connected ==> on.status == c.status
                && ui_effects(m, UiEvent::StartClient(i)).len() == 0
            &&& ui_effects(m, UiEvent::StatusChanged(i, status)).len() == 0
        }),
{
    assert(ui_effects(m, UiEvent::StopClient(i)) =~= seq![Effect::Halt(i)]);
    if !m.clients[i as int].status.running() {
        assert(ui_effects(m, UiEvent::StartClient(i)) =~= seq![Effect::Launch(i)]);
    }
}

/// Opening, closing and selecting show what they say: the dialog for a new client is empty, that for
/// a client shows the client, cancelling leaves everything else, and deleting is asked for first.
pub proof fn law_dialogs_open_and_close(m: AppModel, fresh: Seq<char>, i: usize)
    requires
        m.wf(),
        i < m.clients.len(),
    ensures
        ({
            let a = ui_step(m, UiEvent::OpenAddDialog, fresh);
            &&& a.show_add_dialog && a.edit_idx is None && a.edit_config.name.len() == 0
            &&& a.edit_config.server_addr.len() == 0 && a.edit_config.token.len() == 0
            &&& a.edit_config.agent_id.len() == 0 && a.edit_config.forwards.len() == 0
        }),
        ({
            let a = ui_step(m, UiEvent::EditClient(i), fresh);
            a.edit_idx == Some(i) && a.edit_config == m.clients[i as int].config && a.clients
                == m.clients
        }),
        ({
            let a = ui_step(m, UiEvent::CancelDialog, fresh);
            !a.show_add_dialog && a.edit_idx is None && a.clients == m.clients && a.saved == m.saved
        }),
        ({
            let a = ui_step(m, UiEvent::Select(i), fresh);
            a.selected_idx == Some(i) && a.clients == m.clients
        }),
        ({
            let a = ui_step(m, UiEvent::AskDeleteClient(i), fresh);
            a.confirm_delete_client == Some(i) && a.clients == m.clients && a.saved == m.saved
        }),
        ({
            let a = ui_step(m, UiEvent::CancelAddForward, fresh);
            !a.show_add_forward && a.clients == m.clients && a.saved == m.saved
        }),
        m.selected_idx matches Some(s) ==> ui_step(
            m,
            UiEvent::AskDeleteForward(i),
            fresh,
        ).confirm_delete_forward == Some((s, i)),
        ui_step(m, UiEvent::OpenAddForward, fresh).show_add_forward,
        ui_step(m, UiEvent::ToggleLogs, fresh).show_logs == !m.show_logs,
        !ui_step(m, UiEvent::HideLogs, fresh).show_logs,
        ui_effects(m, UiEvent::ClearLogs) == seq![Effect::ClearLogs],
{
}

/// Every client that runs is counted once.
pub proof fn law_running_clients_are_counted(
    before: Seq<ManagedModel>,
    c: ManagedModel,
    after: Seq<ManagedModel>,
)
    ensures
        running_count(before + seq![c] + after) == running_count(before) + (if c.status is Connecting
            || c.status is Connected {
            1nat
        } else {
            0
        }) + running_count(after),
        running_count(Seq::empty()) == 0,
    decreases after.len(),
{
    let all = before + seq![c] + after;
    if after.len() == 0 {
        assert(all.drop_last() =~= before);
        assert(all.last() == c);
    } else {
        law_running_clients_are_counted(before, c, after.drop_last());
        assert(all.drop_last() =~= before + seq![c] + after.drop_last());
        assert(all.last() == after.last());
    }
}

/// The window opens with all clients that are configured, none of them started, and the first one
/// selected.
pub proof fn law_window_opens_with_its_clients(config: UiConfig, r: RportApp, i: int)
    requires
        call_ensures(RportApp::new, (config,), r),
        0 <= i < config.deep_view().len(),
    ensures
        r.deep_view().clients.len() == config.deep_view().len(),
        r.deep_view().clients[i].config == config.deep_view()[i],
        r.deep_view().clients[i].status is Disconnected,
        r.deep_view().selected_idx == Some(0usize),
        r.deep_view().saved == config.deep_view(),
        !r.deep_view().show_add_dialog && !r.deep_view().show_add_forward,
{
}

/// The status bar names the client that something was done to, and says what.
pub proof fn law_status_bar_names_the_client(m: AppModel, fresh: Seq<char>, i: usize)
    requires
        m.wf(),
        i < m.clients.len(),
    ensures
        ({
            let name = m.clients[i as int].config.name;
            &&& ui_step(m, UiEvent::StartClient(i), fresh).status_message == Some(
                "Starting client '"@ + name + "'..."@,
            )
            &&& ui_step(m, UiEvent::StopClient(i), fresh).status_message == Some(
                "Stopped client '"@ + name + "'"@,
            )
            &&& ui_step(m, UiEvent::DeleteClient(i), fresh).status_message == Some(
                "Deleted client '"@ + name + "'"@,
            )
            &&& m.selected_idx == Some(i) ==> ui_step(m, UiEvent::AddForward, fresh).status_message
                == Some("Added forward rule to '"@ + name + "'"@)
            &&& m.show_add_dialog ==> ui_step(m, UiEvent::SaveDialog, fresh).status_message == Some(
                "Added client '"@ + m.edit_config.name + "'"@,
            )
            &&& !m.show_add_dialog && m.edit_idx == Some(i) ==> ui_step(
                m,
                UiEvent::SaveDialog,
                fresh,
            ).status_message == Some("Updated client '"@ + m.edit_config.name + "'"@)
        }),
{
}

/// The deletion of a client is asked about once, and only while the client is there.
pub proof fn law_deletion_is_asked_once(app: &mut RportApp, r: Option<usize>)
    requires
        call_ensures(RportApp::take_delete_client, (app,), r),
    ensures
        final(app).deep_view().confirm_delete_client is None,
        r matches Some(i) ==> old(app).confirm_delete_client == Some(i) && i
            < old(app).deep_view().clients.len(),
        old(app).confirm_delete_client matches Some(i) ==> (i < old(app).deep_view().clients.len()
            ==> r == Some(i)),
        final(app).deep_view().clients == old(app).deep_view().clients,
{
}

/// Each part of the window changes on the events that it is there for and on no others.
pub proof fn law_each_part_has_its_events(m: AppModel, event: UiEvent, fresh: Seq<char>)
    requires
        m.wf(),
        m.possible(event),
    ensures
        ({
            let a = ui_step(m, event, fresh);
            &&& !(event is SetLogFilter) ==> a.log_filter == m.log_filter
            &&& !(event is HideLogs || event is ToggleLogs) ==> a.show_logs == m.show_logs
            &&& !(event is Select || event is SaveDialog || event is DeleteClient)
                ==> a.selected_idx == m.selected_idx
            &&& !(event is OpenAddDialog || event is CancelDialog || event is SaveDialog)
                ==> a.show_add_dialog == m.show_add_dialog && (!(event is EditClient) ==> a.edit_idx
                == m.edit_idx)
            &&& !(event is OpenAddForward || event is CancelAddForward || event is AddForward)
                ==> a.show_add_forward == m.show_add_forward
            &&& !(event is OpenAddForward || event is NewForward) ==> a.edit_forward
                == m.edit_forward
            &&& !(event is AskDeleteForward) ==> a.confirm_delete_forward
                == m.confirm_delete_forward
            &&& !(event is AskDeleteClient) ==> a.confirm_delete_client == m.confirm_delete_client
            &&& !(event is StartClient || event is StopClient || event is SaveDialog
                || event is AddForward || event is DeleteClient) ==> a.status_message
                == m.status_message
            &&& event is CancelDialog || event is SaveDialog && !m.show_add_dialog || event is Select
                || event is StartClient || event is StopClient || event is StatusChanged
                || event is EditForward || event is AddForward || event is DeleteClient
                || event is DeleteForward ==> a.edit_config == m.edit_config
            &&& a.saved != m.saved ==> ui_effects(m, event).contains(Effect::Save)
            &&& event is SetLogFilter || event is HideLogs || event is ToggleLogs || event is Select
                || event is EditClient || event is AskDeleteClient || event is OpenAddDialog
                || event is CancelDialog || event is AskDeleteForward || event is OpenAddForward
                || event is NewForward || event is CancelAddForward || event is StatusChanged
                ==> ui_effects(m, event).len() == 0
        }),
{
    let e = ui_effects(m, event);
    if e.len() > 0 {
        if e.last() == Effect::Save {
            assert(e[e.len() - 1] == Effect::Save);
        }
        if event is AddForward {
            if let Some(i) = m.selected_idx {
                if m.clients[i as int].status.running() {
                    assert(e[1] == Effect::Save);
                }
            }
        }
    }
}

/// The filter of the log is what was typed. A new forwarding starts out as one of port 8080 to port
/// 80 on the machine of the agent, wherever it is made.
pub proof fn law_fresh_forms(m: AppModel, fresh: Seq<char>, filter: String)
    ensures
        ui_step(m, UiEvent::SetLogFilter(filter), fresh).log_filter == filter@,
        ({
            let rule = ui_step(m, UiEvent::OpenAddForward, fresh).edit_forward;
            &&& rule.local_port == 8080 && rule.remote_port == 80 && rule.enabled
            &&& rule.remote_host == "127.0.0.1"@
            &&& ui_step(m, UiEvent::DialogAddForward, fresh).edit_config.forwards
                == m.edit_config.forwards.push(rule)
        }),
{
}

} // verus!
