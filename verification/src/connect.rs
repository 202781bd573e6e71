//! Opening a session: whether to ask for a password first, what to open it with,
//! and what the window makes of how it went.

use vstd::prelude::*;
use vstd::string::*;

use crate::form::SecretAction;
use crate::grid::{recent_after, remember_recent_host};
use crate::hosts::{MainView, SessionSummary};
use crate::i18n::{filled, t, tf, translated, Language};
use crate::panes::SessionId;
use crate::profile::{
    endpoint_text, law_a_session_leads_to_its_endpoint, AuthMethod, ConnectionProfile, ProfileId,
    Protocol,
};
use crate::style::SessionStatus;
use crate::terminal::TerminalSelection;
use crate::text::{decimal, owned, texts};

verus! {

/// The dialog that asks for a password.
#[derive(Debug, Clone)]
pub struct ConnectionDialog {
    pub profile_id: ProfileId,
    pub title: String,
    pub endpoint: String,
    pub auth_method: AuthMethod,
    pub identity_file: String,
}

/// Whether this is the dialog for a session.
pub open spec fn is_dialog_for(dialog: &ConnectionDialog, profile: &ConnectionProfile) -> bool {
    &&& dialog.profile_id == profile.id
    &&& dialog.title@ == profile.name@
    &&& dialog.endpoint@ == endpoint_text(profile.username@, profile.host@, profile.port as nat)
    &&& dialog.auth_method == profile.auth_method
    &&& dialog.identity_file@ == profile.identity_file@
}

fn dialog_for(profile: &ConnectionProfile) -> (r: ConnectionDialog)
    ensures
        is_dialog_for(&r, profile),
{
    ConnectionDialog {
        profile_id: profile.id,
        title: owned(profile.name.as_str()),
        endpoint: profile.endpoint(),
        auth_method: profile.auth_method,
        identity_file: owned(profile.identity_file.as_str()),
    }
}

/// What of the window opening a session changes.
#[derive(Debug, Clone, Copy)]
pub struct Surface {
    pub terminal_focused: bool,
    pub scroll_offset: usize,
    pub selection: Option<TerminalSelection>,
    pub terminal_menu: bool,
    pub profile_menu: bool,
    pub group_menu: bool,
    pub main_view: MainView,
    /// The size that was last asked of a remote desktop.
    pub rdp_target: Option<(u16, u16)>,
    pub rdp_generation: u64,
}

/// The part of the window that opens sessions.
pub struct Connector {
    pub dialog: Option<ConnectionDialog>,
    pub password: String,
    /// Whether the password is kept.
    pub remember: bool,
    pub surface: Surface,
    pub recent_hosts: Vec<ProfileId>,
    pub last_error: Option<String>,
    pub notice: String,
}

// What to open a session with.

/// What a session is opened with.
pub enum ConnectPlan {
    /// A remote desktop, with a password.
    Desktop { password: String },
    /// A terminal, with a password and the passphrase of a key.
    Terminal { password: String, passphrase: String },
    /// A password is asked for first.
    Ask,
}

/// Whether a password must be asked for before a session is opened.
pub open spec fn must_ask(protocol: Protocol, method: AuthMethod, stored: bool) -> bool {
    match protocol {
        Protocol::Rdp => !stored,
        Protocol::Ssh => !stored && method == AuthMethod::Password,
        _ => false,
    }
}

/// Whether this is what a session is opened with, given what is stored for it.
pub open spec fn is_plan(
    plan: ConnectPlan,
    profile: &ConnectionProfile,
    password: Option<String>,
    passphrase: Option<String>,
) -> bool {
    match plan {
        ConnectPlan::Ask => must_ask(profile.protocol, profile.auth_method, password is Some),
        ConnectPlan::Desktop { password: used } => {
            &&& profile.protocol == Protocol::Rdp
            &&& password is Some
            &&& used@ == password->0@
        },
        ConnectPlan::Terminal { password: used, passphrase: key } => {
            &&& profile.protocol != Protocol::Rdp
            &&& !must_ask(profile.protocol, profile.auth_method, password is Some)
            &&& used@ == if profile.protocol == Protocol::Ssh && password is Some {
                password->0@
            } else {
                Seq::empty()
            }
            &&& key@ == if passphrase is Some {
                passphrase->0@
            } else {
                Seq::empty()
            }
        },
    }
}

/// What a session is opened with, given what is stored for it: a remote desktop
/// needs a password, and so does a session that proves itself by one; a key or an
/// agent needs none, and nothing else has any.
pub fn connection_plan(
    profile: &ConnectionProfile,
    password: Option<String>,
    passphrase: Option<String>,
) -> (r: ConnectPlan)
    ensures
        is_plan(r, profile, password, passphrase),
{
    if profile.protocol == Protocol::Rdp {
        return match password {
            Some(password) => ConnectPlan::Desktop { password },
            None => ConnectPlan::Ask,
        };
    }
    let used: String = if profile.protocol == Protocol::Ssh {
        match password {
            Some(password) => password,
            None => {
                if profile.auth_method == AuthMethod::Password {
                    return ConnectPlan::Ask;
                }
                String::new()
            },
        }
    } else {
        String::new()
    };
    let key: String = match passphrase {
        Some(passphrase) => passphrase,
        None => String::new(),
    };
    ConnectPlan::Terminal { password: used, passphrase: key }
}

/// Whether a session is opened straight away; otherwise its dialog is.
pub open spec fn goes_straight(profile: Option<ConnectionProfile>, stored: bool) -> bool {
    match profile {
        None => false,
        Some(profile) => !must_ask(profile.protocol, profile.auth_method, stored),
    }
}

/// Going straight and asking never call on each other: a session that goes straight
/// because a password that is not empty is stored for it is then opened without
/// being asked about.
pub proof fn law_going_straight_never_asks(
    profile: ConnectionProfile,
    stored: Option<Seq<char>>,
)
    requires
        goes_straight(Some(profile), stored is Some && stored->0.len() > 0),
    ensures
        !must_ask(profile.protocol, profile.auth_method, stored is Some),
{
}

/// What becomes of the password that was typed.
pub open spec fn password_change(remember: bool, password: Seq<char>) -> bool {
    remember && password.len() > 0
}

impl Connector {
    /// The window ready for a session: the dialog is gone, and what was typed with it.
    pub open spec fn cleared(&self) -> bool {
        &&& self.dialog is None
        &&& self.password@.len() == 0
        &&& !self.remember
    }

    /// Begins the direct route to a session, once its form was saved: the host comes
    /// first among the recent ones, whatever its protocol, and what it is opened with is
    /// settled. Nothing happens where the form was not saved; a session that is gone by
    /// then is reported.
    pub fn connect_profile(
        &mut self,
        language: Language,
        saved: Option<ProfileId>,
        profile: Option<&ConnectionProfile>,
        password: Option<String>,
        passphrase: Option<String>,
    ) -> (r: Option<ConnectPlan>)
        ensures
            match saved {
                None => r is None && *final(self) == *old(self),
                Some(id) => {
                    &&& final(self).recent_hosts@ == recent_after(old(self).recent_hosts@, id)
                    &&& match profile {
                        None => {
                            &&& r is None
                            &&& final(self).last_error is Some
                            &&& final(self).last_error->0@ == translated(
                                language,
                                "请选择要连接的会话配置"@,
                            )
                        },
                        Some(profile) => {
                            &&& r is Some
                            &&& is_plan(r->0, profile, password, passphrase)
                            &&& final(self).last_error == old(self).last_error
                        },
                    }
                    &&& *final(self) == (Connector {
                        recent_hosts: final(self).recent_hosts,
                        last_error: final(self).last_error,
                        ..*old(self)
                    })
                },
            },
    {
        let id: ProfileId = match saved {
            Some(id) => id,
            None => {
                return None;
            },
        };
        remember_recent_host(&mut self.recent_hosts, id);
        match profile {
            None => {
                self.last_error = Some(owned(t(language, "请选择要连接的会话配置")));
                None
            },
            Some(profile) => Some(connection_plan(profile, password, passphrase)),
        }
    }

    /// Opens the selected session straight away where nothing has to be asked, and
    /// says whether it does. Then the terminals are shown, since a session is what
    /// they are for.
    pub fn connect_or_prompt(&mut self, profile: Option<&ConnectionProfile>, stored: bool) -> (r:
        bool)
        ensures
            r == match profile {
                Some(profile) => goes_straight(Some(*profile), stored),
                None => false,
            },
            final(self).surface == if r {
                Surface { main_view: MainView::Terminal, ..old(self).surface }
            } else {
                old(self).surface
            },
            *final(self) == (Connector { surface: final(self).surface, ..*old(self) }),
    {
        let straight: bool = match profile {
            None => false,
            Some(profile) => match profile.protocol {
                Protocol::Rdp => stored,
                Protocol::Ssh => stored || profile.auth_method != AuthMethod::Password,
                _ => true,
            },
        };
        if straight {
            self.surface.main_view = MainView::Terminal;
        }
        straight
    }

    /// Takes note of how the opening of a remote desktop went. `size` is what was
    /// asked of it; nothing was where the window has no room yet.
    pub fn desktop_opened(
        &mut self,
        endpoint: &str,
        size: (u16, u16),
        opened: Result<(), String>,
    )
        ensures
            match opened {
                Ok(_) => {
                    &&& final(self).cleared()
                    &&& final(self).surface == (Surface {
                        terminal_focused: true,
                        rdp_target: if size.0 > 0 {
                            Some(size)
                        } else {
                            None
                        },
                        rdp_generation: 0,
                        ..old(self).surface
                    })
                    &&& final(self).last_error is None
                    &&& final(self).notice@ == "RDP 会话已开始连接: "@ + endpoint@
                },
                Err(error) => {
                    &&& final(self).last_error == Some(error)
                    &&& *final(self) == (Connector {
                        last_error: final(self).last_error,
                        ..*old(self)
                    })
                },
            },
            final(self).recent_hosts == old(self).recent_hosts,
    {
        match opened {
            Ok(_) => {
                self.surface.rdp_target = if size.0 > 0 {
                    Some(size)
                } else {
                    None
                };
                self.dialog = None;
                self.password = String::new();
                self.remember = false;
                self.surface.terminal_focused = true;
                self.surface.rdp_generation = 0;
                self.last_error = None;
                let mut notice: String = owned("RDP 会话已开始连接: ");
                notice.append(endpoint);
                self.notice = notice;
            },
            Err(error) => {
                self.last_error = Some(error);
            },
        }
    }

    /// Takes note of how the opening of a terminal went, and says whether the
    /// forwardings of its session are to be started. `label` is what a session that
    /// is none over SSH is called.
    pub fn terminal_opened(
        &mut self,
        protocol: Protocol,
        endpoint: &str,
        label: &str,
        opened: Result<(), String>,
    ) -> (r: bool)
        ensures
            match opened {
                Ok(_) => {
                    &&& r == (protocol == Protocol::Ssh)
                    &&& final(self).cleared()
                    &&& final(self).surface == terminal_shown(old(self).surface)
                    &&& final(self).last_error is None
                    &&& final(self).notice@ == if protocol == Protocol::Ssh {
                        "SSH 会话已开始连接: "@ + endpoint@
                    } else {
                        "已启动"@ + label@
                    }
                },
                Err(error) => {
                    &&& !r
                    &&& final(self).last_error == Some(error)
                    &&& *final(self) == (Connector {
                        last_error: final(self).last_error,
                        ..*old(self)
                    })
                },
            },
            final(self).recent_hosts == old(self).recent_hosts,
    {
        match opened {
            Ok(_) => {
                self.dialog = None;
                self.password = String::new();
                self.remember = false;
                self.surface.terminal_focused = true;
                self.surface.scroll_offset = 0;
                self.surface.selection = None;
                self.surface.terminal_menu = false;
                self.last_error = None;
                let over_ssh: bool = protocol == Protocol::Ssh;
                let mut notice: String = owned(
                    if over_ssh {
                        "SSH 会话已开始连接: "
                    } else {
                        "已启动"
                    },
                );
                if over_ssh {
                    notice.append(endpoint);
                } else {
                    notice.append(label);
                }
                self.notice = notice;
                over_ssh
            },
            Err(error) => {
                self.last_error = Some(error);
                false
            },
        }
    }

    /// Opens the dialog for a session, given what is stored for it. A session that
    /// has no password to ask for is opened straight away instead, and the answer
    /// says so.
    pub fn open_connection_dialog(
        &mut self,
        language: Language,
        profile: Option<&ConnectionProfile>,
        stored: Result<Option<String>, String>,
    ) -> (r: DialogOutcome)
        ensures
            match profile {
                None => {
                    &&& r == DialogOutcome::NoSession
                    &&& final(self).last_error is Some
                    &&& final(self).last_error->0@ == translated(language, "请选择要连接的会话配置"@)
                    &&& *final(self) == (Connector {
                        last_error: final(self).last_error,
                        ..*old(self)
                    })
                },
                Some(profile) => if profile.protocol != Protocol::Ssh && profile.protocol
                    != Protocol::Rdp {
                    r == DialogOutcome::GoStraight && *final(self) == *old(self)
                } else {
                    &&& r == DialogOutcome::Asked
                    &&& final(self).dialog is Some
                    &&& is_dialog_for(&final(self).dialog->0, profile)
                    &&& final(self).remember
                    &&& final(self).password@ == match stored {
                        Ok(Some(password)) => password@,
                        _ => Seq::empty(),
                    }
                    &&& match stored {
                        Ok(_) => final(self).last_error is None,
                        Err(error) => final(self).last_error is Some
                            && final(self).last_error->0@ == filled(
                            translated(language, "读取已保存的密码失败: {}"@),
                            seq![error@],
                        ),
                    }
                    &&& final(self).notice@ == translated(
                        language,
                        match stored {
                            Ok(Some(_)) => "已载入已保存的密码"@,
                            _ => "请输入本次连接的密码或 passphrase"@,
                        },
                    )
                    &&& final(self).surface == (Surface {
                        terminal_focused: false,
                        terminal_menu: false,
                        profile_menu: false,
                        group_menu: false,
                        ..old(self).surface
                    })
                    &&& final(self).recent_hosts == old(self).recent_hosts
                },
            },
    {
        let profile: &ConnectionProfile = match profile {
            Some(profile) => profile,
            None => {
                self.last_error = Some(owned(t(language, "请选择要连接的会话配置")));
                return DialogOutcome::NoSession;
            },
        };
        if profile.protocol != Protocol::Ssh && profile.protocol != Protocol::Rdp {
            return DialogOutcome::GoStraight;
        }
        self.dialog = Some(dialog_for(profile));
        self.remember = true;
        match stored {
            Ok(Some(password)) => {
                self.password = password;
                self.last_error = None;
                self.notice = owned(t(language, "已载入已保存的密码"));
            },
            Ok(None) => {
                self.password = String::new();
                self.last_error = None;
                self.notice = owned(t(language, "请输入本次连接的密码或 passphrase"));
            },
            Err(error) => {
                let args: Vec<String> = vec![error];
                assert(texts(args@) =~= seq![error@]);
                self.password = String::new();
                self.last_error = Some(tf(language, "读取已保存的密码失败: {}", &args));
                self.notice = owned(t(language, "请输入本次连接的密码或 passphrase"));
            },
        }
        self.surface.terminal_focused = false;
        self.surface.terminal_menu = false;
        self.surface.profile_menu = false;
        self.surface.group_menu = false;
        DialogOutcome::Asked
    }

    /// Opens the dialog again for a session whose password was refused. It starts
    /// empty: what was there is what was refused. A session that has no password to
    /// ask for, or that is gone, changes nothing.
    pub fn open_password_reprompt(
        &mut self,
        language: Language,
        profile: Option<&ConnectionProfile>,
        reason: &str,
    )
        ensures
            profile is Some && (profile->0.protocol == Protocol::Ssh || profile->0.protocol
                == Protocol::Rdp) ==> {
                &&& final(self).dialog is Some
                &&& is_dialog_for(&final(self).dialog->0, profile->0)
                &&& final(self).password@.len() == 0
                &&& final(self).remember
                &&& final(self).last_error is Some
                &&& final(self).last_error->0@ == filled(
                    translated(language, "认证失败，请重新输入密码: {}"@),
                    seq![reason@],
                )
            },
            !(profile is Some && (profile->0.protocol == Protocol::Ssh || profile->0.protocol
                == Protocol::Rdp)) ==> *final(self) == *old(self),
            final(self).surface == old(self).surface,
            final(self).recent_hosts == old(self).recent_hosts,
            final(self).notice == old(self).notice,
    {
        let profile: &ConnectionProfile = match profile {
            Some(profile) => profile,
            None => {
                return;
            },
        };
        if profile.protocol != Protocol::Ssh && profile.protocol != Protocol::Rdp {
            return;
        }
        let args: Vec<String> = vec![owned(reason)];
        assert(texts(args@) =~= seq![reason@]);
        self.dialog = Some(dialog_for(profile));
        self.password = String::new();
        self.remember = true;
        self.last_error = Some(tf(language, "认证失败，请重新输入密码: {}", &args));
    }

    /// Whether a refused password may be asked for now: not while a dialog is open,
    /// since that would wipe what is being typed.
    pub fn sync_auth_retry(&self) -> (r: bool)
        ensures
            r == (self.dialog is None),
    {
        self.dialog.is_none()
    }

    /// What becomes of the password that was typed: it is kept where that is wanted
    /// and there is one, and what was kept before is forgotten otherwise.
    pub fn sync_connection_password(&self) -> (r: SecretAction)
        ensures
            match r {
                SecretAction::Save(kept) => password_change(self.remember, self.password@)
                    && kept@ == self.password@,
                SecretAction::Delete => !password_change(self.remember, self.password@),
                SecretAction::Keep => false,
            },
    {
        if self.remember && self.password.as_str().unicode_len() > 0 {
            SecretAction::Save(owned(self.password.as_str()))
        } else {
            SecretAction::Delete
        }
    }

    /// What the dialog that is open asks to be opened: its session, as a desktop or
    /// as a terminal; nothing where no dialog is open.
    pub fn confirm_connection(&self, protocol: Option<Protocol>) -> (r: Option<(ProfileId, bool)>)
        ensures
            match self.dialog {
                Some(dialog) => r == Some((dialog.profile_id, protocol == Some(Protocol::Rdp))),
                None => r is None,
            },
    {
        match &self.dialog {
            Some(dialog) => {
                let desktop: bool = match protocol {
                    Some(protocol) => protocol == Protocol::Rdp,
                    None => false,
                };
                Some((dialog.profile_id, desktop))
            },
            None => None,
        }
    }

    /// Takes note of how the opening of the session of the dialog went. `warning` is
    /// why its password could not be kept, where it could not; that is reported, but
    /// the session is open all the same. A session that did not open leaves the
    /// dialog as it is.
    pub fn connection_confirmed(
        &mut self,
        language: Language,
        desktop: Option<(u16, u16)>,
        warning: Option<String>,
        opened: Result<(), String>,
    )
        requires
            old(self).dialog is Some,
        ensures
            match opened {
                Ok(_) => {
                    let dialog = old(self).dialog->0;
                    &&& final(self).cleared()
                    &&& final(self).recent_hosts@ == recent_after(
                        old(self).recent_hosts@,
                        dialog.profile_id,
                    )
                    &&& final(self).surface == match desktop {
                        Some(size) => Surface {
                            terminal_focused: true,
                            rdp_target: if size.0 > 0 {
                                Some(size)
                            } else {
                                None
                            },
                            rdp_generation: 0,
                            ..old(self).surface
                        },
                        None => terminal_shown(old(self).surface),
                    }
                    &&& final(self).last_error is Some == warning is Some
                    &&& warning matches Some(error) ==> final(self).last_error->0@ == filled(
                        translated(language, "保存密码失败: {}"@),
                        seq![error@],
                    )
                    &&& final(self).notice@ == match desktop {
                        Some(_) => "RDP 会话已开始连接: "@ + dialog.endpoint@,
                        None => "SSH 会话已开始连接: "@ + dialog.endpoint@ + if warning is Some {
                            "；系统凭据未保存"@
                        } else {
                            Seq::empty()
                        },
                    }
                },
                Err(error) => {
                    &&& final(self).last_error == Some(error)
                    &&& *final(self) == (Connector {
                        last_error: final(self).last_error,
                        ..*old(self)
                    })
                },
            },
    {
        match opened {
            Ok(_) => {
                let (profile_id, endpoint): (ProfileId, String) = match &self.dialog {
                    Some(dialog) => (dialog.profile_id, owned(dialog.endpoint.as_str())),
                    None => (ProfileId(0), String::new()),
                };
                remember_recent_host(&mut self.recent_hosts, profile_id);
                let mut notice: String = owned(
                    match desktop {
                        Some(_) => "RDP 会话已开始连接: ",
                        None => "SSH 会话已开始连接: ",
                    },
                );
                notice.append(endpoint.as_str());
                self.surface.terminal_focused = true;
                match desktop {
                    Some(size) => {
                        self.surface.rdp_target = if size.0 > 0 {
                            Some(size)
                        } else {
                            None
                        };
                        self.surface.rdp_generation = 0;
                    },
                    None => {
                        self.surface.scroll_offset = 0;
                        self.surface.selection = None;
                        self.surface.terminal_menu = false;
                        if warning.is_some() {
                            notice.append("；系统凭据未保存");
                        }
                        assert(notice@ =~= "SSH 会话已开始连接: "@ + endpoint@ + if warning is Some {
                            "；系统凭据未保存"@
                        } else {
                            Seq::empty()
                        });
                    },
                }
                self.notice = notice;
                self.dialog = None;
                self.password = String::new();
                self.remember = false;
                self.last_error = match warning {
                    Some(error) => {
                        let args: Vec<String> = vec![error];
                        assert(texts(args@) =~= seq![error@]);
                        Some(tf(language, "保存密码失败: {}", &args))
                    },
                    None => None,
                };
            },
            Err(error) => {
                self.last_error = Some(error);
            },
        }
    }

    /// Prepares another attempt at the active session, where it is down: says which
    /// session to close and which saved session to open. One that is up is left
    /// alone.
    pub fn retry_active_session(&mut self, language: Language, active: Option<&SessionSummary>)
        -> (r: Option<(SessionId, ProfileId)>)
        ensures
            match active {
                None => {
                    &&& r is None
                    &&& final(self).last_error is Some
                    &&& final(self).last_error->0@ == translated(language, "没有可重连的活动标签"@)
                    &&& *final(self) == (Connector {
                        last_error: final(self).last_error,
                        ..*old(self)
                    })
                },
                Some(session) => if is_dead(session.status) {
                    &&& r == Some((session.id, session.profile_id))
                    &&& final(self).last_error is None
                    &&& final(self).notice@ == "准备重连: "@ + session.endpoint@
                    &&& final(self).surface == (Surface {
                        terminal_focused: false,
                        scroll_offset: 0,
                        selection: None,
                        terminal_menu: false,
                        ..old(self).surface
                    })
                    &&& *final(self) == (Connector {
                        last_error: final(self).last_error,
                        notice: final(self).notice,
                        surface: final(self).surface,
                        ..*old(self)
                    })
                } else {
                    &&& r is None
                    &&& final(self).notice@ == translated(
                        language,
                        "当前会话仍在连接或已连接，无需重连"@,
                    )
                    &&& *final(self) == (Connector { notice: final(self).notice, ..*old(self) })
                },
            },
    {
        match active {
            None => {
                self.last_error = Some(owned(t(language, "没有可重连的活动标签")));
                None
            },
            Some(session) => {
                if !active_session_is_dead(Some(session.status)) {
                    self.notice = owned(t(language, "当前会话仍在连接或已连接，无需重连"));
                    return None;
                }
                self.surface.terminal_focused = false;
                self.last_error = None;
                self.surface.scroll_offset = 0;
                self.surface.selection = None;
                self.surface.terminal_menu = false;
                let mut notice: String = owned("准备重连: ");
                notice.append(session.endpoint.as_str());
                self.notice = notice;
                Some((session.id, session.profile_id))
            },
        }
    }

    /// Takes note of how a reconnection in place went.
    pub fn reconnected(&mut self, endpoint: &str, result: Result<(), String>)
        ensures
            match result {
                Ok(_) => {
                    &&& final(self).surface == (Surface {
                        scroll_offset: 0,
                        selection: None,
                        ..old(self).surface
                    })
                    &&& final(self).last_error is None
                    &&& final(self).notice@ == "正在重连: "@ + endpoint@
                    &&& *final(self) == (Connector {
                        surface: final(self).surface,
                        last_error: final(self).last_error,
                        notice: final(self).notice,
                        ..*old(self)
                    })
                },
                Err(error) => {
                    &&& final(self).last_error == Some(error)
                    &&& *final(self) == (Connector {
                        last_error: final(self).last_error,
                        ..*old(self)
                    })
                },
            },
    {
        match result {
            Ok(_) => {
                self.surface.scroll_offset = 0;
                self.surface.selection = None;
                self.last_error = None;
                let mut notice: String = owned("正在重连: ");
                notice.append(endpoint);
                self.notice = notice;
            },
            Err(error) => {
                self.last_error = Some(error);
            },
        }
    }

    /// Takes note of how the disconnection of the active session went; there is none
    /// to disconnect where `result` is nothing.
    pub fn disconnect_active(&mut self, language: Language, result: Option<Result<(), String>>)
        ensures
            match result {
                None => {
                    &&& final(self).last_error is Some
                    &&& final(self).last_error->0@ == translated(language, "没有活动会话"@)
                    &&& final(self).notice == old(self).notice
                },
                Some(Ok(_)) => {
                    &&& final(self).last_error is None
                    &&& final(self).notice@ == translated(language, "已请求断开当前会话"@)
                },
                Some(Err(error)) => {
                    &&& final(self).last_error == Some(error)
                    &&& final(self).notice == old(self).notice
                },
            },
            *final(self) == (Connector {
                last_error: final(self).last_error,
                notice: final(self).notice,
                ..*old(self)
            }),
    {
        match result {
            None => {
                self.last_error = Some(owned(t(language, "没有活动会话")));
            },
            Some(Ok(_)) => {
                self.last_error = None;
                self.notice = owned(t(language, "已请求断开当前会话"));
            },
            Some(Err(error)) => {
                self.last_error = Some(error);
            },
        }
    }

    /// Takes note of how the clearing of the active terminal went.
    pub fn clear_active_terminal(&mut self, language: Language, result: Result<(), String>)
        ensures
            match result {
                Ok(_) => {
                    &&& final(self).surface == (Surface {
                        scroll_offset: 0,
                        selection: None,
                        terminal_menu: false,
                        ..old(self).surface
                    })
                    &&& final(self).last_error is None
                    &&& final(self).notice@ == translated(language, "当前终端已清屏"@)
                },
                Err(error) => {
                    &&& final(self).last_error == Some(error)
                    &&& final(self).surface == old(self).surface
                    &&& final(self).notice == old(self).notice
                },
            },
            *final(self) == (Connector {
                surface: final(self).surface,
                last_error: final(self).last_error,
                notice: final(self).notice,
                ..*old(self)
            }),
    {
        match result {
            Ok(_) => {
                self.surface.scroll_offset = 0;
                self.surface.selection = None;
                self.surface.terminal_menu = false;
                self.last_error = None;
                self.notice = owned(t(language, "当前终端已清屏"));
            },
            Err(error) => {
                self.last_error = Some(error);
            },
        }
    }

    /// Takes note of how the opening of a demonstration went.
    pub fn open_selected_mock_tab(&mut self, language: Language, result: Result<(), String>)
        ensures
            match result {
                Ok(_) => {
                    &&& final(self).surface == terminal_shown(old(self).surface)
                    &&& final(self).last_error is None
                    &&& final(self).notice@ == translated(language, "已打开演示标签"@)
                },
                Err(error) => {
                    &&& final(self).last_error == Some(error)
                    &&& final(self).surface == old(self).surface
                    &&& final(self).notice == old(self).notice
                },
            },
            *final(self) == (Connector {
                surface: final(self).surface,
                last_error: final(self).last_error,
                notice: final(self).notice,
                ..*old(self)
            }),
    {
        match result {
            Ok(_) => {
                self.surface.terminal_focused = true;
                self.surface.scroll_offset = 0;
                self.surface.selection = None;
                self.surface.terminal_menu = false;
                self.last_error = None;
                self.notice = owned(t(language, "已打开演示标签"));
            },
            Err(error) => {
                self.last_error = Some(error);
            },
        }
    }
}

/// What opening the dialog came to.
#[derive(Debug, Clone, Copy, PartialEq, Eq, Structural)]
pub enum DialogOutcome {
    /// There is no session to open.
    NoSession,
    /// The session has no password to ask for.
    GoStraight,
    /// The dialog is open.
    Asked,
}

/// The window with a terminal that was just opened.
pub open spec fn terminal_shown(surface: Surface) -> Surface {
    Surface {
        terminal_focused: true,
        scroll_offset: 0,
        selection: None,
        terminal_menu: false,
        ..surface
    }
}

/// Whether a session is down.
pub open spec fn is_dead(status: SessionStatus) -> bool {
    status == SessionStatus::Error || status == SessionStatus::Disconnected
}

/// Whether the active session is down, so that Enter brings it up again.
pub fn active_session_is_dead(status: Option<SessionStatus>) -> (r: bool)
    ensures
        r == match status {
            Some(status) => is_dead(status),
            None => false,
        },
{
    match status {
        Some(status) => status == SessionStatus::Error || status == SessionStatus::Disconnected,
        None => false,
    }
}

/// A password is asked for where none is stored and one is needed: by every remote
/// desktop, and by a shell that authenticates with a password. Nothing else asks.
pub proof fn law_a_password_is_asked_for_where_it_is_needed(
    protocol: Protocol,
    method: AuthMethod,
    stored: bool,
)
    ensures
        must_ask(protocol, method, stored) <==> !stored && (protocol == Protocol::Rdp || (protocol
            == Protocol::Ssh && method == AuthMethod::Password)),
{
}

/// A remote desktop is opened with the password that is stored for it, and a terminal
/// with the password and the passphrase that are stored for it, where they are.
pub proof fn law_a_session_is_opened_with_what_is_stored(
    plan: ConnectPlan,
    profile: &ConnectionProfile,
    password: Option<String>,
    passphrase: Option<String>,
)
    requires
        is_plan(plan, profile, password, passphrase),
    ensures
        plan is Ask <==> must_ask(profile.protocol, profile.auth_method, password is Some),
        plan is Desktop <==> profile.protocol == Protocol::Rdp && password is Some,
        plan matches ConnectPlan::Desktop { password: used } ==> used@ == password->0@,
        plan matches ConnectPlan::Terminal { password: used, passphrase: key } ==> {
            &&& profile.protocol == Protocol::Ssh && password is Some ==> used@ == password->0@
            &&& passphrase is Some ==> key@ == passphrase->0@
            &&& password is None ==> used@.len() == 0
            &&& passphrase is None ==> key@.len() == 0
        },
{
}

/// A session that failed or ended is down; one that is up or on its way is not.
pub proof fn law_these_sessions_are_down()
    ensures
        is_dead(SessionStatus::Error),
        is_dead(SessionStatus::Disconnected),
        !is_dead(SessionStatus::Connected),
        !is_dead(SessionStatus::Connecting),
{
}

/// Once a session is opened nothing is left of the question: no dialog, no password, and
/// no wish to keep it.
pub proof fn law_nothing_is_left_of_the_question(connector: &Connector)
    requires
        connector.cleared(),
    ensures
        connector.dialog is None,
        connector.password@ == Seq::<char>::empty(),
        !connector.remember,
{
    assert(connector.password@ =~= Seq::<char>::empty());
}

/// The question about a session shows its name and where it leads.
pub proof fn law_a_question_is_about_its_session(
    dialog: &ConnectionDialog,
    profile: &ConnectionProfile,
)
    requires
        is_dialog_for(dialog, profile),
    ensures
        dialog.profile_id == profile.id,
        dialog.title@ == profile.name@,
        dialog.endpoint@ == profile.username@.push('@') + profile.host@.push(':') + decimal(
            profile.port as nat,
        ),
        dialog.auth_method == profile.auth_method,
        dialog.identity_file@ == profile.identity_file@,
{
    law_a_session_leads_to_its_endpoint(
        profile.username@,
        profile.host@,
        profile.port as nat,
    );
}

} // verus!
