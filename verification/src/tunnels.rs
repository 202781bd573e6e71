//! Port forwardings: what the form asks for, and what its panel shows.

use vstd::prelude::*;
use vstd::string::*;

use crate::groups::{parse_port, port_value};
use crate::hosts::SessionSummary;
use crate::i18n::{filled, t, tf, translated, Language};
use crate::profile::{
    find_profile, found_at, lemma_found_at, ConnectionProfile, TunnelDef, TunnelKind,
};
use crate::style::{opaque, rgb, tone, tone_color, Rgba, Tone};
use crate::text::{blank, decimal, decimal_of, is_blank, owned, texts, trim, trimmed};

verus! {

/// The fields of a port forwarding, as they are typed.
pub struct TunnelForm {
    pub kind: TunnelKind,
    pub bind_addr: String,
    pub bind_port: String,
    pub target_host: String,
    pub target_port: String,
    /// Whether it is kept with the session.
    pub save: bool,
}

/// Why a forwarding cannot be made.
#[derive(Debug, Clone, Copy, PartialEq, Eq, Structural)]
pub enum TunnelError {
    BadBindPort,
    NoTargetHost,
    BadTargetPort,
}

/// Why what is typed cannot be made, where it cannot: the first thing that is
/// wrong, from the top. A forwarding without a target needs none.
pub open spec fn tunnel_error(form: &TunnelForm) -> Option<TunnelError> {
    if port_value(form.bind_port@) is None {
        Some(TunnelError::BadBindPort)
    } else if form.kind == TunnelKind::Dynamic {
        None
    } else if blank(form.target_host@) {
        Some(TunnelError::NoTargetHost)
    } else if port_value(form.target_port@) is None {
        Some(TunnelError::BadTargetPort)
    } else {
        None
    }
}

/// The address that is listened on: this machine only, where none is typed.
pub open spec fn bind_address(typed: Seq<char>) -> Seq<char> {
    if blank(typed) {
        "127.0.0.1"@
    } else {
        trimmed(typed)
    }
}

/// Whether this is what is typed.
pub open spec fn asked_for(def: &TunnelDef, form: &TunnelForm) -> bool {
    &&& def.kind == form.kind
    &&& def.bind_address@ == bind_address(form.bind_addr@)
    &&& port_value(form.bind_port@) == Some(def.bind_port as nat)
    &&& if form.kind == TunnelKind::Dynamic {
        def.target_host@.len() == 0 && def.target_port == 0
    } else {
        def.target_host@ == trimmed(form.target_host@) && port_value(form.target_port@) == Some(
            def.target_port as nat,
        )
    }
}

impl TunnelForm {
    /// What is typed, or the first thing that is wrong with it.
    pub fn request(&self) -> (r: Result<TunnelDef, TunnelError>)
        ensures
            match r {
                Ok(def) => tunnel_error(self) is None && asked_for(&def, self),
                Err(error) => tunnel_error(self) == Some(error),
            },
    {
        let bind_port: u16 = match parse_port(self.bind_port.as_str()) {
            Some(port) => port,
            None => {
                return Err(TunnelError::BadBindPort);
            },
        };
        let (target_host, target_port): (String, u16) = match self.kind {
            TunnelKind::Dynamic => (String::new(), 0),
            _ => {
                if is_blank(self.target_host.as_str()) {
                    return Err(TunnelError::NoTargetHost);
                }
                match parse_port(self.target_port.as_str()) {
                    Some(port) => (trim(self.target_host.as_str()), port),
                    None => {
                        return Err(TunnelError::BadTargetPort);
                    },
                }
            },
        };
        let bind_address: String = if is_blank(self.bind_addr.as_str()) {
            owned("127.0.0.1")
        } else {
            trim(self.bind_addr.as_str())
        };
        Ok(TunnelDef { kind: self.kind, bind_address, bind_port, target_host, target_port })
    }

    /// Takes note of how the opening of a forwarding went. One that opened leaves
    /// the form ready for another: its ports and its target are cleared, and the
    /// rest stays. One that did not leaves the form as it is.
    ///
    /// Says what is reported, and whether the forwarding is to be kept with the
    /// session that is active.
    pub fn add_tunnel(&mut self, language: Language, opened: Result<(), String>, session: bool)
        -> (r: TunnelOutcome)
        ensures
            match opened {
                Ok(_) => {
                    &&& final(self).bind_port@.len() == 0
                    &&& final(self).target_host@.len() == 0
                    &&& final(self).target_port@.len() == 0
                    &&& r.notice is Some
                    &&& r.notice->0@ == translated(language, "已创建端口转发"@)
                    &&& r.error is None
                    &&& r.keep == (old(self).save && session)
                },
                Err(error) => {
                    &&& *final(self) == *old(self)
                    &&& r.notice is None
                    &&& r.error is Some
                    &&& r.error->0@ == filled(
                        translated(language, "端口转发失败: {}"@),
                        seq![error@],
                    )
                    &&& !r.keep
                },
            },
            final(self).kind == old(self).kind,
            final(self).bind_addr == old(self).bind_addr,
            final(self).save == old(self).save,
    {
        match opened {
            Ok(_) => {
                self.bind_port = String::new();
                self.target_host = String::new();
                self.target_port = String::new();
                TunnelOutcome {
                    notice: Some(owned(t(language, "已创建端口转发"))),
                    error: None,
                    keep: self.save && session,
                }
            },
            Err(error) => {
                let args: Vec<String> = vec![error];
                assert(texts(args@) =~= seq![error@]);
                TunnelOutcome {
                    notice: None,
                    error: Some(tf(language, "端口转发失败: {}", &args)),
                    keep: false,
                }
            },
        }
    }
}

/// What is reported of a forwarding, and whether it is kept.
pub struct TunnelOutcome {
    pub notice: Option<String>,
    pub error: Option<String>,
    pub keep: bool,
}

/// What is said of a form that cannot be made.
pub fn error_text(language: Language, error: TunnelError) -> (r: &'static str)
    ensures
        r@ == translated(
            language,
            match error {
                TunnelError::BadBindPort => "请输入有效的本地端口"@,
                TunnelError::NoTargetHost => "该转发需要填写目标主机"@,
                TunnelError::BadTargetPort => "请输入有效的目标端口"@,
            },
        ),
{
    t(
        language,
        match error {
            TunnelError::BadBindPort => "请输入有效的本地端口",
            TunnelError::NoTargetHost => "该转发需要填写目标主机",
            TunnelError::BadTargetPort => "请输入有效的目标端口",
        },
    )
}

/// A forwarding that is under way.
pub struct TunnelState {
    pub id: u64,
    pub kind: TunnelKind,
    pub bind: String,
    pub target: String,
    pub status: String,
    pub active: u32,
    pub listening: bool,
    pub error: Option<String>,
}

/// The row of a forwarding that is under way.
pub struct TunnelRow {
    /// What the button that closes it sends.
    pub id: u64,
    pub kind: &'static str,
    pub route: String,
    pub active: String,
    /// What it says of itself.
    pub status: String,
    pub health: TunnelHealth,
}

/// How a forwarding is doing.
#[derive(Debug, Clone, Copy, PartialEq, Eq, Structural)]
pub enum TunnelHealth {
    Failed,
    Listening,
    Waiting,
}

/// The colour of what a forwarding says of itself.
pub fn health_color(dark: bool, health: TunnelHealth) -> (r: Rgba)
    ensures
        r == match health {
            TunnelHealth::Failed => tone(dark, Tone::Danger),
            TunnelHealth::Listening => opaque(34, 197, 94),
            TunnelHealth::Waiting => tone(dark, Tone::Muted),
        },
{
    match health {
        TunnelHealth::Failed => tone_color(dark, Tone::Danger),
        TunnelHealth::Listening => rgb(34, 197, 94),
        TunnelHealth::Waiting => tone_color(dark, Tone::Muted),
    }
}

/// The letter of a forwarding.
pub open spec fn kind_letter(kind: TunnelKind) -> Seq<char> {
    match kind {
        TunnelKind::Local => "L"@,
        TunnelKind::Dynamic => "D"@,
        TunnelKind::Remote => "R"@,
    }
}

/// From where to where a forwarding leads.
pub open spec fn route_text(language: Language, tunnel: &TunnelState) -> Seq<char> {
    match tunnel.kind {
        TunnelKind::Local => tunnel.bind@ + " → "@ + tunnel.target@,
        TunnelKind::Dynamic => tunnel.bind@ + "  (SOCKS5)"@,
        TunnelKind::Remote => filled(
            translated(language, "远端 {} → 本地 {}"@),
            seq![tunnel.bind@, tunnel.target@],
        ),
    }
}

/// Whether this is the row of a forwarding.
pub open spec fn is_row(row: &TunnelRow, language: Language, tunnel: &TunnelState) -> bool {
    &&& row.id == tunnel.id
    &&& row.status@ == tunnel.status@
    &&& row.kind@ == kind_letter(tunnel.kind)
    &&& row.route@ == route_text(language, tunnel)
    &&& row.active@ == filled(
        translated(language, "活动 {}"@),
        seq![decimal(tunnel.active as nat)],
    )
    &&& row.health == if tunnel.error is Some {
        TunnelHealth::Failed
    } else if tunnel.listening {
        TunnelHealth::Listening
    } else {
        TunnelHealth::Waiting
    }
}

/// The row of a forwarding that is under way.
pub fn tunnel_row(language: Language, tunnel: &TunnelState) -> (r: TunnelRow)
    ensures
        is_row(&r, language, tunnel),
{
    let kind: &'static str = match tunnel.kind {
        TunnelKind::Local => "L",
        TunnelKind::Dynamic => "D",
        TunnelKind::Remote => "R",
    };
    let route: String = match tunnel.kind {
        TunnelKind::Local => {
            let mut out: String = owned(tunnel.bind.as_str());
            out.append(" → ");
            out.append(tunnel.target.as_str());
            out
        },
        TunnelKind::Dynamic => {
            let mut out: String = owned(tunnel.bind.as_str());
            out.append("  (SOCKS5)");
            out
        },
        TunnelKind::Remote => {
            let args: Vec<String> = vec![
                owned(tunnel.bind.as_str()),
                owned(tunnel.target.as_str()),
            ];
            assert(texts(args@) =~= seq![tunnel.bind@, tunnel.target@]);
            tf(language, "远端 {} → 本地 {}", &args)
        },
    };
    let args: Vec<String> = vec![decimal_of(tunnel.active as u64)];
    assert(texts(args@) =~= seq![decimal(tunnel.active as nat)]);
    TunnelRow {
        id: tunnel.id,
        kind,
        route,
        status: owned(tunnel.status.as_str()),
        active: tf(language, "活动 {}", &args),
        health: if tunnel.error.is_some() {
            TunnelHealth::Failed
        } else if tunnel.listening {
            TunnelHealth::Listening
        } else {
            TunnelHealth::Waiting
        },
    }
}

/// An address and a port.
pub open spec fn address_text(host: Seq<char>, port: u16) -> Seq<char> {
    host + ":"@ + decimal(port as nat)
}

/// What the row of a saved forwarding says.
pub open spec fn saved_text(def: &TunnelDef) -> Seq<char> {
    match def.kind {
        TunnelKind::Local => "L  "@ + address_text(def.bind_address@, def.bind_port) + " → "@
            + address_text(def.target_host@, def.target_port),
        TunnelKind::Dynamic => "D  "@ + address_text(def.bind_address@, def.bind_port)
            + "  (SOCKS5)"@,
        TunnelKind::Remote => "R  远端 "@ + address_text(def.bind_address@, def.bind_port)
            + " → 本地 "@ + address_text(def.target_host@, def.target_port),
    }
}

fn append_address(out: &mut String, host: &str, port: u16)
    ensures
        final(out)@ == old(out)@ + address_text(host@, port),
{
    out.append(host);
    out.append(":");
    out.append(decimal_of(port as u64).as_str());
    assert(out@ =~= old(out)@ + address_text(host@, port));
}

/// What the row of a saved forwarding says.
pub fn saved_tunnel_row(def: &TunnelDef) -> (r: String)
    ensures
        r@ == saved_text(def),
{
    let mut out: String = owned(
        match def.kind {
            TunnelKind::Local => "L  ",
            TunnelKind::Dynamic => "D  ",
            TunnelKind::Remote => "R  远端 ",
        },
    );
    append_address(&mut out, def.bind_address.as_str(), def.bind_port);
    match def.kind {
        TunnelKind::Local => {
            out.append(" → ");
            append_address(&mut out, def.target_host.as_str(), def.target_port);
        },
        TunnelKind::Dynamic => {
            out.append("  (SOCKS5)");
        },
        TunnelKind::Remote => {
            out.append(" → 本地 ");
            append_address(&mut out, def.target_host.as_str(), def.target_port);
        },
    }
    assert(out@ =~= saved_text(def));
    out
}

/// The form of the panel.
pub struct TunnelFormView {
    pub hint: &'static str,
    pub bind_label: &'static str,
    pub bind_placeholder: &'static str,
    pub bind_address: String,
    pub bind_port: String,
    /// The target; none where a forwarding has no target.
    pub target: Option<TargetView>,
    /// Whether it is kept with the session.
    pub keep: bool,
}

/// The target in the form.
pub struct TargetView {
    pub label: &'static str,
    pub host: String,
    pub port: String,
}

/// What a forwarding is for.
pub open spec fn kind_hint(kind: TunnelKind) -> Seq<char> {
    match kind {
        TunnelKind::Local => "本机端口 → 经 SSH 服务器 → 目标地址（访问服务器能到达的内网服务）"@,
        TunnelKind::Dynamic => "本机启动 SOCKS5 代理，应用挂上后所有流量走服务器出口"@,
        TunnelKind::Remote => "服务器监听端口 → 经 SSH 隧道 → 本机目标地址（把本地服务暴露给远端网络）"@,
    }
}

/// Whether this is how a form is shown.
pub open spec fn is_form_view(view: &TunnelFormView, form: &TunnelForm) -> bool {
    &&& view.hint@ == kind_hint(form.kind)
    &&& view.bind_label@ == if form.kind == TunnelKind::Remote {
        "远端"@
    } else {
        "本地"@
    }
    &&& view.bind_placeholder@ == if form.kind == TunnelKind::Remote {
        "127.0.0.1（远端绑定，0.0.0.0 对外）"@
    } else {
        "127.0.0.1"@
    }
    &&& view.bind_address@ == form.bind_addr@
    &&& view.bind_port@ == form.bind_port@
    &&& view.target is Some == (form.kind != TunnelKind::Dynamic)
    &&& view.target matches Some(target) ==> {
        &&& target.label@ == if form.kind == TunnelKind::Remote {
            "本地"@
        } else {
            "目标"@
        }
        &&& target.host@ == form.target_host@
        &&& target.port@ == form.target_port@
    }
    &&& view.keep == form.save
}

/// How a form is shown: what it asks for depends on the kind of forwarding.
pub fn tunnel_form_view(form: &TunnelForm) -> (r: TunnelFormView)
    ensures
        is_form_view(&r, form),
{
    let (hint, bind_label, bind_placeholder): (&'static str, &'static str, &'static str) =
        match form.kind {
        TunnelKind::Local => (
            "本机端口 → 经 SSH 服务器 → 目标地址（访问服务器能到达的内网服务）",
            "本地",
            "127.0.0.1",
        ),
        TunnelKind::Dynamic => (
            "本机启动 SOCKS5 代理，应用挂上后所有流量走服务器出口",
            "本地",
            "127.0.0.1",
        ),
        TunnelKind::Remote => (
            "服务器监听端口 → 经 SSH 隧道 → 本机目标地址（把本地服务暴露给远端网络）",
            "远端",
            "127.0.0.1（远端绑定，0.0.0.0 对外）",
        ),
    };
    let target: Option<TargetView> = match form.kind {
        TunnelKind::Dynamic => None,
        _ => Some(
            TargetView {
                label: if form.kind == TunnelKind::Remote {
                    "本地"
                } else {
                    "目标"
                },
                host: owned(form.target_host.as_str()),
                port: owned(form.target_port.as_str()),
            },
        ),
    };
    TunnelFormView {
        hint,
        bind_label,
        bind_placeholder,
        bind_address: owned(form.bind_addr.as_str()),
        bind_port: owned(form.bind_port.as_str()),
        target,
        keep: form.save,
    }
}

/// A button of the form, and whether its kind is the chosen one.
pub struct KindButton {
    pub label: &'static str,
    pub kind: TunnelKind,
    pub selected: bool,
}

/// The panel of the forwardings.
pub struct TunnelsPanel {
    pub title: &'static str,
    /// Where the active session leads; nothing where none is active.
    pub endpoint: String,
    pub kinds: Vec<KindButton>,
    pub form: TunnelFormView,
    /// The rows of the saved forwardings of the active session, in order.
    pub saved: Vec<String>,
    /// What stands in their place where there are none.
    pub saved_empty: Option<&'static str>,
    /// The rows of the forwardings that are under way, in order.
    pub running: Vec<TunnelRow>,
    /// What stands in their place where there are none.
    pub running_empty: Option<&'static str>,
}

/// The kinds that can be chosen, in their order.
pub open spec fn kind_buttons(current: TunnelKind) -> Seq<(Seq<char>, TunnelKind, bool)> {
    seq![
        ("本地转发 -L"@, TunnelKind::Local, current == TunnelKind::Local),
        ("动态 SOCKS -D"@, TunnelKind::Dynamic, current == TunnelKind::Dynamic),
        ("远程转发 -R"@, TunnelKind::Remote, current == TunnelKind::Remote),
    ]
}

/// The forwardings that are kept with the active session: those of the saved session it
/// was opened from, and none where no session is active or that one is gone.
pub open spec fn kept_with(
    active: Option<&SessionSummary>,
    profiles: Seq<ConnectionProfile>,
) -> Seq<TunnelDef> {
    match active {
        Some(session) => match found_at(profiles, session.profile_id) {
            Some(at) => profiles[at].tunnels@,
            None => Seq::empty(),
        },
        None => Seq::empty(),
    }
}

/// The position of the saved session whose forwardings are kept with the active one.
pub fn saved_tunnels(active: Option<&SessionSummary>, profiles: &Vec<ConnectionProfile>) -> (r:
    Option<usize>)
    ensures
        match r {
            Some(at) => {
                &&& active is Some
                &&& found_at(profiles@, active->0.profile_id) == Some(at as int)
                &&& at < profiles@.len()
                &&& profiles@[at as int].tunnels@ == kept_with(active, profiles@)
            },
            None => {
                &&& active matches Some(session) ==> found_at(profiles@, session.profile_id) is None
                &&& kept_with(active, profiles@).len() == 0
            },
        },
{
    match active {
        Some(session) => find_profile(profiles, session.profile_id),
        None => None,
    }
}

/// The panel of the forwardings: those that are kept with the active session, and those
/// that are under way.
pub fn tunnels_panel_overlay(
    language: Language,
    form: &TunnelForm,
    active: Option<&SessionSummary>,
    profiles: &Vec<ConnectionProfile>,
    running: &Vec<TunnelState>,
) -> (r: TunnelsPanel)
    ensures
        r.title@ == translated(language, "端口转发"@),
        r.endpoint@ == match active {
            Some(session) => session.endpoint@,
            None => Seq::empty(),
        },
        r.kinds@.map_values(|b: KindButton| (b.label@, b.kind, b.selected)) == kind_buttons(
            form.kind,
        ),
        is_form_view(&r.form, form),
        r.saved@.len() == kept_with(active, profiles@).len(),
        forall|i: int|
            0 <= i < r.saved@.len() ==> (#[trigger] r.saved@[i])@ == saved_text(
                &kept_with(active, profiles@)[i],
            ),
        r.saved_empty is Some == (kept_with(active, profiles@).len() == 0),
        r.saved_empty matches Some(text) ==> text@ == translated(language, "（无）"@),
        r.running@.len() == running@.len(),
        forall|i: int|
            0 <= i < running@.len() ==> is_row(&#[trigger] r.running@[i], language, &running@[i]),
        r.running_empty is Some == (running@.len() == 0),
        r.running_empty matches Some(text) ==> text@ == translated(language, "（暂无转发）"@),
{
    let kinds: Vec<KindButton> = vec![
        KindButton {
            label: "本地转发 -L",
            kind: TunnelKind::Local,
            selected: form.kind == TunnelKind::Local,
        },
        KindButton {
            label: "动态 SOCKS -D",
            kind: TunnelKind::Dynamic,
            selected: form.kind == TunnelKind::Dynamic,
        },
        KindButton {
            label: "远程转发 -R",
            kind: TunnelKind::Remote,
            selected: form.kind == TunnelKind::Remote,
        },
    ];
    assert(kinds@.map_values(|b: KindButton| (b.label@, b.kind, b.selected)) =~= kind_buttons(
        form.kind,
    ));
    let ghost kept = kept_with(active, profiles@);
    let mut saved_rows: Vec<String> = Vec::new();
    if let Some(at) = saved_tunnels(active, profiles) {
        let saved: &Vec<TunnelDef> = &profiles[at].tunnels;
        let mut i: usize = 0;
        while i < saved.len()
            invariant
                i <= saved.len(),
                saved@ == kept,
                saved_rows@.len() == i,
                forall|j: int|
                    0 <= j < i ==> (#[trigger] saved_rows@[j])@ == saved_text(&kept[j]),
            decreases saved.len() - i,
        {
            saved_rows.push(saved_tunnel_row(&saved[i]));
            i += 1;
        }
    }
    let mut rows: Vec<TunnelRow> = Vec::new();
    let mut k: usize = 0;
    while k < running.len()
        invariant
            k <= running.len(),
            rows@.len() == k,
            forall|j: int|
                0 <= j < k ==> is_row(&#[trigger] rows@[j], language, &running@[j]),
        decreases running.len() - k,
    {
        rows.push(tunnel_row(language, &running[k]));
        k += 1;
    }
    let endpoint: String = match active {
        Some(session) => owned(session.endpoint.as_str()),
        None => String::new(),
    };
    let nothing_saved: bool = saved_rows.len() == 0;
    TunnelsPanel {
        title: t(language, "端口转发"),
        endpoint,
        kinds,
        form: tunnel_form_view(form),
        saved: saved_rows,
        saved_empty: if nothing_saved {
            Some(t(language, "（无）"))
        } else {
            None
        },
        running: rows,
        running_empty: if running.len() == 0 {
            Some(t(language, "（暂无转发）"))
        } else {
            None
        },
    }
}

/// A request that was refused says the first thing that is wrong, and one that was
/// not asks for exactly what is typed: the two never both hold.
pub proof fn law_a_request_is_complete_or_refused(form: &TunnelForm, def: &TunnelDef)
    requires
        asked_for(def, form),
        form.kind == TunnelKind::Dynamic || def.target_host@.len() > 0,
    ensures
        tunnel_error(form) is None,
{
    if form.kind != TunnelKind::Dynamic {
        assert(!blank(form.target_host@));
    }
}

/// A forwarding is refused for the port that it listens on, and, where it has a target,
/// for a target without a host or with a port that is none: in that order.
pub proof fn law_a_forwarding_is_refused_for_these_reasons(form: &TunnelForm)
    ensures
        port_value(form.bind_port@) is None ==> tunnel_error(form) == Some(
            TunnelError::BadBindPort,
        ),
        port_value(form.bind_port@) is Some && form.kind == TunnelKind::Dynamic ==> tunnel_error(
            form,
        ) is None,
        port_value(form.bind_port@) is Some && form.kind != TunnelKind::Dynamic && blank(
            form.target_host@,
        ) ==> tunnel_error(form) == Some(TunnelError::NoTargetHost),
        port_value(form.bind_port@) is Some && form.kind != TunnelKind::Dynamic && !blank(
            form.target_host@,
        ) && port_value(form.target_port@) is None ==> tunnel_error(form) == Some(
            TunnelError::BadTargetPort,
        ),
        port_value(form.bind_port@) is Some && form.kind != TunnelKind::Dynamic && !blank(
            form.target_host@,
        ) && port_value(form.target_port@) is Some ==> tunnel_error(form) is None,
{
}

/// A forwarding listens on what is typed, and on this machine only where nothing is; it
/// leads to the target that is typed, and a proxy to none.
pub proof fn law_a_forwarding_leads_where_it_says(def: &TunnelDef, form: &TunnelForm)
    requires
        asked_for(def, form),
    ensures
        def.kind == form.kind,
        blank(form.bind_addr@) ==> def.bind_address@ == "127.0.0.1"@,
        !blank(form.bind_addr@) ==> def.bind_address@ == trimmed(form.bind_addr@),
        Some(def.bind_port as nat) == port_value(form.bind_port@),
        form.kind != TunnelKind::Dynamic ==> def.target_host@ == trimmed(form.target_host@)
            && Some(def.target_port as nat) == port_value(form.target_port@),
        form.kind == TunnelKind::Dynamic ==> def.target_host@.len() == 0 && def.target_port == 0,
{
}

/// A row names both ends of a forwarding, where it listens first; a proxy has one end.
pub proof fn law_a_saved_forwarding_names_its_ends(def: &TunnelDef)
    ensures
        ({
            let from = def.bind_address@ + ":"@ + decimal(def.bind_port as nat);
            let to = def.target_host@ + ":"@ + decimal(def.target_port as nat);
            &&& def.kind == TunnelKind::Local ==> saved_text(def) == "L  "@ + from + " → "@ + to
            &&& def.kind == TunnelKind::Remote ==> saved_text(def) == "R  远端 "@ + from
                + " → 本地 "@ + to
            &&& def.kind == TunnelKind::Dynamic ==> saved_text(def) == "D  "@ + from
                + "  (SOCKS5)"@
        }),
{
}

/// A forwarding that failed shows as failed, whether or not it listens; and one that
/// listens as such. Its letter is that of its kind.
pub proof fn law_a_row_shows_the_state_of_its_forwarding(
    row: &TunnelRow,
    language: Language,
    tunnel: &TunnelState,
)
    requires
        is_row(row, language, tunnel),
    ensures
        row.id == tunnel.id,
        row.health == TunnelHealth::Failed <==> tunnel.error is Some,
        row.health == TunnelHealth::Listening <==> tunnel.error is None && tunnel.listening,
        row.kind@ == (match tunnel.kind {
            TunnelKind::Local => seq!['L'],
            TunnelKind::Dynamic => seq!['D'],
            TunnelKind::Remote => seq!['R'],
        }),
        tunnel.kind == TunnelKind::Local ==> row.route@ == tunnel.bind@ + " → "@ + tunnel.target@,
        tunnel.kind == TunnelKind::Dynamic ==> row.route@ == tunnel.bind@ + "  (SOCKS5)"@,
{
    reveal_strlit("L");
    reveal_strlit("D");
    reveal_strlit("R");
    assert("L"@ =~= seq!['L']);
    assert("D"@ =~= seq!['D']);
    assert("R"@ =~= seq!['R']);
}

/// The forwardings that are shown are those of the saved session that the active one was
/// opened from.
pub proof fn law_the_forwardings_of_the_active_session_are_shown(
    session: &SessionSummary,
    profiles: Seq<ConnectionProfile>,
    k: int,
)
    requires
        0 <= k < profiles.len(),
        profiles[k].id == session.profile_id,
        forall|i: int| 0 <= i < k ==> (#[trigger] profiles[i]).id != session.profile_id,
    ensures
        kept_with(Some(session), profiles) == profiles[k].tunnels@,
        kept_with(None, profiles).len() == 0,
{
    lemma_found_at(profiles, session.profile_id, k);
}

/// The three kinds are offered once each, and the one that is chosen is marked.
pub proof fn law_the_chosen_kind_is_marked(current: TunnelKind, i: int)
    requires
        0 <= i < 3,
    ensures
        kind_buttons(current).len() == 3,
        kind_buttons(current)[0].1 == TunnelKind::Local,
        kind_buttons(current)[1].1 == TunnelKind::Dynamic,
        kind_buttons(current)[2].1 == TunnelKind::Remote,
        kind_buttons(current)[i].2 == (kind_buttons(current)[i].1 == current),
{
}

/// The form shows what is typed, and asks for a target unless it is for a proxy.
pub proof fn law_a_form_shows_what_is_typed(view: &TunnelFormView, form: &TunnelForm)
    requires
        is_form_view(view, form),
    ensures
        view.bind_address@ == form.bind_addr@,
        view.bind_port@ == form.bind_port@,
        view.target is None <==> form.kind == TunnelKind::Dynamic,
        view.target matches Some(target) ==> target.host@ == form.target_host@ && target.port@
            == form.target_port@,
        view.keep == form.save,
{
}

} // verus!
