//! The kernel's handling of the messages of logged-in clients: subscriptions,
//! command lines and actions.
use vstd::prelude::*;
use crate::cli::execute::{Kernel, KernelView, kernel_wf, command_runs, run_outcome, action_fits, implicit_outcome,
    total_percent, total_converter, CliOutcome, OutcomeView};
use crate::fixture::{ChannelValue, ColorModelInput};
use crate::networking::messages::{SessionID, ConnectionID, TcpClientMessage, TcpServerMessage};
use crate::networking::session::{ServerState, SessionView, ContinuousBuffer, MessageView, sessions_wf,
    subscribe_outcome, outbox_view, allocation_view};
use crate::networking::subscription::DMXConfigurationForClient;

verus! {

/// Whether a message of a logged-in client can be handled: its command line
/// can be run, its action fits. The login messages are handled before
/// (see [`crate::networking::session::route_message`]) and never come here.
pub open spec fn message_runs(k: KernelView, m: TcpClientMessage) -> bool {
    match m {
        TcpClientMessage::Login { .. } | TcpClientMessage::Logout | TcpClientMessage::Relogin { .. } => false,
        TcpClientMessage::ExecuteCommand { command, .. } => command_runs(k, command@),
        TcpClientMessage::ExecuteImplicitCommand { command, .. } => action_fits(k, command),
        _ => true,
    }
}

/// What handling a message of the session `token` does, `data` being the
/// latest channel allocation: a subscription is recorded (and answered with
/// the data); a command line is run as from a client (an `exit` is refused)
/// and answered with its reply; an action is executed and answered with its
/// outcome; the other messages are only acknowledged in the log.
pub open spec fn message_outcome<P: Fn(String) -> Result<ChannelValue, String>,
    C: Fn(ColorModelInput) -> (ChannelValue, ChannelValue, ChannelValue)>(s: Seq<(SessionID, SessionView)>,
    k: KernelView, data: Seq<Seq<DMXConfigurationForClient>>, m: TcpClientMessage, token: SessionID,
    debug_commands: bool, percent: P, convert: C, s2: Seq<(SessionID, SessionView)>, k2: KernelView,
    reply: Option<TcpServerMessage>, out: Seq<(ConnectionID, MessageView)>) -> bool {
    match m {
        TcpClientMessage::Subscribe { topic, update_mode } =>
            k2 == k && reply is None && subscribe_outcome(s, token, topic, update_mode, data, s2, out),
        TcpClientMessage::ExecuteCommand { command, response_id } => s2 == s && out.len() == 0
            && (reply matches Some(TcpServerMessage::CommandOutput { answer, response_id: id })
                && id == response_id
                && run_outcome(k, false, command@, debug_commands, percent, convert, k2,
                    OutcomeView::Reply(answer.0, answer.1@))),
        TcpClientMessage::ExecuteImplicitCommand { command, response_id } => s2 == s && out.len() == 0
            && (reply matches Some(TcpServerMessage::ImplicitCommandOutput { answer, response_id: id })
                && id == response_id && implicit_outcome(k, command, convert, k2, answer@)),
        _ => s2 == s && k2 == k && reply is None && out.len() == 0,
    }
}

/// A command line run from a client never asks to shut down.
proof fn lemma_client_never_exits<P: Fn(String) -> Result<ChannelValue, String>,
    C: Fn(ColorModelInput) -> (ChannelValue, ChannelValue, ChannelValue)>(k: KernelView, s: Seq<char>,
    debug_commands: bool, percent: P, convert: C, k2: KernelView, x: Option<bool>)
    ensures
        !run_outcome(k, false, s, debug_commands, percent, convert, k2, OutcomeView::Exit(x)),
{
}

impl ServerState {
    /// Handles a message of the logged-in session `token`; see
    /// [`message_outcome`]. Returns the answer to the connection, if any, and
    /// the messages to other connections.
    pub fn handle_messages<P: Fn(String) -> Result<ChannelValue, String>,
        C: Fn(ColorModelInput) -> (ChannelValue, ChannelValue, ChannelValue)>(&mut self, kernel: &mut Kernel,
        buffer: &ContinuousBuffer, message: TcpClientMessage, token: SessionID, debug_commands: bool,
        percent: &P, convert: &C) -> (r: (Option<TcpServerMessage>, Vec<(ConnectionID, TcpServerMessage)>))
        requires
            sessions_wf(old(self)@),
            kernel_wf(old(kernel)@),
            message_runs(old(kernel)@, message),
            total_percent(*percent),
            total_converter(*convert),
        ensures
            sessions_wf(final(self)@),
            kernel_wf(final(kernel)@),
            message_outcome(old(self)@, old(kernel)@, allocation_view(buffer.dmx_config@), message, token,
                debug_commands, *percent, *convert, final(self)@, final(kernel)@, r.0, outbox_view(r.1@)),
    {
        let ghost k0 = kernel@;
        let ghost s0 = self@;
        let none: Vec<(ConnectionID, TcpServerMessage)> = Vec::new();
        proof {
            assert(outbox_view(none@) =~= Seq::<(ConnectionID, MessageView)>::empty());
        }
        match message {
            TcpClientMessage::Subscribe { topic, update_mode } => {
                let out = self.add_subscription(token, topic, update_mode, buffer);
                (None, out)
            }
            TcpClientMessage::ExecuteCommand { command, response_id } => {
                let outcome = kernel.run_command(false, command.as_str(), debug_commands, percent, convert);
                match outcome {
                    CliOutcome::Reply(level, text) => {
                        (Some(TcpServerMessage::CommandOutput { answer: (level, text), response_id }), none)
                    }
                    CliOutcome::Exit(x) => {
                        proof {
                            lemma_client_never_exits(k0, command@, debug_commands, *percent, *convert, kernel@, x);
                        }
                        (None, none)
                    }
                }
            }
            TcpClientMessage::ExecuteImplicitCommand { command, response_id } => {
                let answer = kernel.execute_implicit_cli_action(&command, convert);
                (Some(TcpServerMessage::ImplicitCommandOutput { answer, response_id }), none)
            }
            _ => (None, none),
        }
    }
}

} // verus!
