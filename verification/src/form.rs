//! The session editor's form: what it is filled with, what saving it writes,
//! and whether it differs from what is saved.

use vstd::prelude::*;
use vstd::string::*;

use crate::groups::{parse_port, port_value};
use crate::jumps::{
    bad_hop, chain_text, hops, jumps_to_spec, law_a_written_chain_reads_back, lemma_chain_ends,
    parse_jumps_checked,
    parsed_chain, writable, Hop,
};
use crate::profile::{AuthMethod, ConnectionProfile, Environment, JumpHop, ProfileId, Protocol};
use crate::text::{
    blank, decimal, decimal_of, is_digit, lemma_decimal_reads_back, owned, same, trim, trimmed,
    without_plus,
};

verus! {

/// The fields of the session editor, as they are typed.
pub struct ProfileForm {
    pub group: String,
    pub name: String,
    pub host: String,
    pub port: String,
    pub username: String,
    pub auth_method: AuthMethod,
    pub identity_file: String,
    pub protocol: Protocol,
    pub icon: String,
    pub startup_command: String,
    pub jumps: String,
    pub terminal_type: String,
    pub environment: Environment,
    pub accent_color: String,
    pub label: String,
    pub password: String,
    pub passphrase: String,
}

/// What becomes of a secret in the credential store.
#[derive(Debug, Clone)]
pub enum SecretAction {
    Keep,
    Save(String),
    Delete,
}

/// Why a form cannot be saved.
pub enum SaveError {
    /// The port is no number from 1 to 65535.
    BadPort,
    /// A part of the jump chain is no hop; the message names it.
    BadJump(String),
}

/// What saving a form writes.
pub struct ProfileSave {
    /// The session to update, or none to make a new one.
    pub target: Option<ProfileId>,
    pub group: String,
    pub name: String,
    pub host: String,
    pub port: u16,
    pub username: String,
    pub auth_method: AuthMethod,
    pub identity_file: String,
    pub protocol: Protocol,
    pub icon: String,
    pub startup_command: String,
    pub jumps: Vec<JumpHop>,
    pub terminal_type: String,
    pub environment: Environment,
    pub accent_color: Option<String>,
    pub label: Option<String>,
    pub password: SecretAction,
    pub passphrase: SecretAction,
}

/// A field that may be left blank.
pub open spec fn optional(field: Seq<char>) -> Option<Seq<char>> {
    if blank(field) {
        None
    } else {
        Some(trimmed(field))
    }
}

/// The characters of an optional text.
pub open spec fn chars(s: Option<String>) -> Option<Seq<char>> {
    match s {
        Some(s) => Some(s@),
        None => None,
    }
}

fn optional_field(field: &str) -> (r: Option<String>)
    ensures
        chars(r) == optional(field@),
{
    let text: String = trim(field);
    if text.as_str().is_empty() {
        None
    } else {
        Some(text)
    }
}

/// Whether a way to authenticate uses a key.
pub open spec fn uses_key(auth: AuthMethod) -> bool {
    auth == AuthMethod::Key || auth == AuthMethod::Auto
}

/// What becomes of the saved password: only password authentication has one, and
/// an empty field clears it.
pub open spec fn password_action(form: &ProfileForm) -> SecretAction {
    if form.auth_method != AuthMethod::Password {
        SecretAction::Keep
    } else if form.password@.len() == 0 {
        SecretAction::Delete
    } else {
        SecretAction::Save(form.password)
    }
}

/// What becomes of the saved passphrase: it is kept for the ways of
/// authenticating that use a key, and cleared for the others.
pub open spec fn passphrase_action(form: &ProfileForm) -> SecretAction {
    if uses_key(form.auth_method) && form.passphrase@.len() > 0 {
        SecretAction::Save(form.passphrase)
    } else {
        SecretAction::Delete
    }
}

/// Whether what is written of a form is what is typed in it, field by field.
pub open spec fn is_save_of(save: &ProfileSave, form: &ProfileForm) -> bool {
    &&& save.group@ == form.group@
    &&& save.name@ == form.name@
    &&& save.host@ == form.host@
    &&& port_value(form.port@) == Some(save.port as nat)
    &&& save.username@ == form.username@
    &&& save.auth_method == form.auth_method
    &&& save.identity_file@ == form.identity_file@
    &&& save.protocol == form.protocol
    &&& save.icon@ == form.icon@
    &&& save.startup_command@ == form.startup_command@
    &&& parsed_chain(form.jumps@) == Ok::<Seq<Hop>, Seq<char>>(hops(save.jumps@))
    &&& save.terminal_type@ == form.terminal_type@
    &&& save.environment == form.environment
    &&& chars(save.accent_color) == optional(form.accent_color@)
    &&& chars(save.label) == optional(form.label@)
}

/// Checks a form and says what saving it writes. A bad hop blocks the save:
/// dropping it would silently bypass a machine.
pub fn save_profile_from_form(form: &ProfileForm, selected: Option<ProfileId>) -> (r: Result<
    ProfileSave,
    SaveError,
>)
    ensures
        match r {
            Ok(save) => {
                &&& save.target == selected
                &&& is_save_of(&save, form)
                &&& save.password == password_action(form)
                &&& save.passphrase == passphrase_action(form)
            },
            Err(SaveError::BadPort) => port_value(form.port@) is None,
            Err(SaveError::BadJump(message)) => {
                &&& port_value(form.port@) is Some
                &&& exists|bad: Seq<char>|
                    parsed_chain(form.jumps@) == Err::<Seq<Hop>, Seq<char>>(bad) && message@
                        == #[trigger] bad_hop(bad)
            },
        },
{
    let port: u16 = match parse_port(form.port.as_str()) {
        Some(port) => port,
        None => {
            return Err(SaveError::BadPort);
        },
    };
    let jumps: Vec<JumpHop> = match parse_jumps_checked(form.jumps.as_str()) {
        Ok(jumps) => jumps,
        Err(message) => {
            return Err(SaveError::BadJump(message));
        },
    };
    let password: SecretAction = if form.auth_method == AuthMethod::Password {
        if form.password.as_str().is_empty() {
            SecretAction::Delete
        } else {
            SecretAction::Save(form.password.clone())
        }
    } else {
        SecretAction::Keep
    };
    let keyed: bool = form.auth_method == AuthMethod::Key || form.auth_method == AuthMethod::Auto;
    let passphrase: SecretAction = if keyed && !form.passphrase.as_str().is_empty() {
        SecretAction::Save(form.passphrase.clone())
    } else {
        SecretAction::Delete
    };
    Ok(
        ProfileSave {
            target: selected,
            group: owned(form.group.as_str()),
            name: owned(form.name.as_str()),
            host: owned(form.host.as_str()),
            port,
            username: owned(form.username.as_str()),
            auth_method: form.auth_method,
            identity_file: owned(form.identity_file.as_str()),
            protocol: form.protocol,
            icon: owned(form.icon.as_str()),
            startup_command: owned(form.startup_command.as_str()),
            jumps,
            terminal_type: owned(form.terminal_type.as_str()),
            environment: form.environment,
            accent_color: optional_field(form.accent_color.as_str()),
            label: optional_field(form.label.as_str()),
            password,
            passphrase,
        },
    )
}

/// An optional text, or nothing.
pub open spec fn or_empty(s: Option<String>) -> Seq<char> {
    match s {
        Some(s) => s@,
        None => Seq::empty(),
    }
}

fn text_or_empty(s: &Option<String>) -> (r: String)
    ensures
        r@ == or_empty(*s),
{
    match s {
        Some(s) => s.clone(),
        None => String::new(),
    }
}

/// Whether a form holds a session: each field as it is saved, and the secrets
/// that its way of authenticating uses.
pub open spec fn filled_from(
    form: &ProfileForm,
    profile: &ConnectionProfile,
    password: Option<String>,
    passphrase: Option<String>,
) -> bool {
    &&& form.group == profile.group
    &&& form.name == profile.name
    &&& form.host == profile.host
    &&& form.port@ == decimal(profile.port as nat)
    &&& form.username == profile.username
    &&& form.auth_method == profile.auth_method
    &&& form.identity_file == profile.identity_file
    &&& form.protocol == profile.protocol
    &&& form.icon == profile.icon
    &&& form.startup_command == profile.startup_command
    &&& form.jumps@ == chain_text(hops(profile.jumps@))
    &&& form.terminal_type == profile.terminal_type
    &&& form.environment == profile.environment
    &&& form.accent_color@ == or_empty(profile.accent_color)
    &&& form.label@ == or_empty(profile.label)
    &&& form.password@ == if profile.auth_method == AuthMethod::Password {
        or_empty(password)
    } else {
        Seq::empty()
    }
    &&& form.passphrase@ == if uses_key(profile.auth_method) {
        or_empty(passphrase)
    } else {
        Seq::empty()
    }
}

/// Fills the form from a saved session. The secrets come from the credential
/// store, and only those that its way of authenticating uses are shown.
pub fn load_selected_profile(
    profile: &ConnectionProfile,
    password: &Option<String>,
    passphrase: &Option<String>,
) -> (r: ProfileForm)
    ensures
        filled_from(&r, profile, *password, *passphrase),
{
    let keyed: bool = profile.auth_method == AuthMethod::Key || profile.auth_method
        == AuthMethod::Auto;
    ProfileForm {
        group: profile.group.clone(),
        name: profile.name.clone(),
        host: profile.host.clone(),
        port: decimal_of(profile.port as u64),
        username: profile.username.clone(),
        auth_method: profile.auth_method,
        identity_file: profile.identity_file.clone(),
        protocol: profile.protocol,
        icon: profile.icon.clone(),
        startup_command: profile.startup_command.clone(),
        jumps: jumps_to_spec(&profile.jumps),
        terminal_type: profile.terminal_type.clone(),
        environment: profile.environment,
        accent_color: text_or_empty(&profile.accent_color),
        label: text_or_empty(&profile.label),
        password: if profile.auth_method == AuthMethod::Password {
            text_or_empty(password)
        } else {
            String::new()
        },
        passphrase: if keyed {
            text_or_empty(passphrase)
        } else {
            String::new()
        },
    }
}

/// Whether the form shows what is saved. The jump chain is compared as text, so
/// that a hop that cannot be parsed reads as a change.
pub open spec fn form_matches(form: &ProfileForm, profile: &ConnectionProfile) -> bool {
    &&& profile.group@ == trimmed(form.group@)
    &&& profile.name@ == trimmed(form.name@)
    &&& profile.host@ == trimmed(form.host@)
    &&& decimal(profile.port as nat) == trimmed(form.port@)
    &&& profile.username@ == trimmed(form.username@)
    &&& profile.auth_method == form.auth_method
    &&& profile.identity_file@ == trimmed(form.identity_file@)
    &&& profile.protocol == form.protocol
    &&& profile.startup_command@ == trimmed(form.startup_command@)
    &&& profile.terminal_type@ == trimmed(form.terminal_type@)
    &&& chain_text(hops(profile.jumps@)) == trimmed(form.jumps@)
    &&& profile.environment == form.environment
    &&& or_empty(profile.accent_color) == trimmed(form.accent_color@)
    &&& or_empty(profile.label) == trimmed(form.label@)
}

fn shows(saved: &str, field: &str) -> (r: bool)
    ensures
        r == (saved@ == trimmed(field@)),
{
    let field: String = trim(field);
    same(saved, field.as_str())
}

/// Whether the form shows what is saved. Without a selected session it does not.
pub fn form_matches_selected_profile(form: &ProfileForm, profile: Option<&ConnectionProfile>) -> (r:
    bool)
    ensures
        r == (profile matches Some(p) && form_matches(form, p)),
{
    match profile {
        None => false,
        Some(p) => {
            let port: String = decimal_of(p.port as u64);
            let jumps: String = jumps_to_spec(&p.jumps);
            let accent: String = text_or_empty(&p.accent_color);
            let label: String = text_or_empty(&p.label);
            shows(p.group.as_str(), form.group.as_str()) && shows(
                p.name.as_str(),
                form.name.as_str(),
            ) && shows(p.host.as_str(), form.host.as_str()) && shows(
                port.as_str(),
                form.port.as_str(),
            ) && shows(p.username.as_str(), form.username.as_str()) && p.auth_method
                == form.auth_method && shows(
                p.identity_file.as_str(),
                form.identity_file.as_str(),
            ) && p.protocol == form.protocol && shows(
                p.startup_command.as_str(),
                form.startup_command.as_str(),
            ) && shows(p.terminal_type.as_str(), form.terminal_type.as_str()) && shows(
                jumps.as_str(),
                form.jumps.as_str(),
            ) && p.environment == form.environment && shows(
                accent.as_str(),
                form.accent_color.as_str(),
            ) && shows(label.as_str(), form.label.as_str())
        },
    }
}

/// Where the form leads, as `user@host:port`, or a note where a part is missing.
pub open spec fn form_endpoint_text(form: &ProfileForm) -> Seq<char> {
    let (user, host, port) = (
        trimmed(form.username@),
        trimmed(form.host@),
        trimmed(form.port@),
    );
    if user.len() == 0 || host.len() == 0 || port.len() == 0 {
        "会话信息不完整"@
    } else {
        user + seq!['@'] + host + seq![':'] + port
    }
}

/// Where the form leads, as `user@host:port`, or a note where a part is missing.
pub fn form_endpoint(form: &ProfileForm) -> (r: String)
    ensures
        r@ == form_endpoint_text(form),
{
    let user: String = trim(form.username.as_str());
    let host: String = trim(form.host.as_str());
    let port: String = trim(form.port.as_str());
    if user.as_str().is_empty() || host.as_str().is_empty() || port.as_str().is_empty() {
        owned("会话信息不完整")
    } else {
        let mut out: String = user.clone();
        out.push('@');
        out.append(host.as_str());
        out.push(':');
        out.append(port.as_str());
        assert(out@ =~= user@ + seq!['@'] + host@ + seq![':'] + port@);
        out
    }
}

/// The group that a new or saved session lands in: the form's, trimmed. Empty
/// means none.
pub fn active_profile_group(form: &ProfileForm) -> (r: String)
    ensures
        r@ == trimmed(form.group@),
{
    trim(form.group.as_str())
}

// What is loaded and saved is the same.

/// Whether a session is one that the editor could have saved: its texts are
/// trimmed, its port and its hops can be written.
pub open spec fn savable(profile: &ConnectionProfile) -> bool {
    &&& trimmed(profile.group@) == profile.group@
    &&& trimmed(profile.name@) == profile.name@
    &&& trimmed(profile.host@) == profile.host@
    &&& trimmed(profile.username@) == profile.username@
    &&& trimmed(profile.identity_file@) == profile.identity_file@
    &&& trimmed(profile.startup_command@) == profile.startup_command@
    &&& trimmed(profile.terminal_type@) == profile.terminal_type@
    &&& profile.accent_color matches Some(s) ==> trimmed(s@) == s@ && s@.len() > 0
    &&& profile.label matches Some(s) ==> trimmed(s@) == s@ && s@.len() > 0
    &&& profile.port > 0
    &&& forall|i: int|
        0 <= i < profile.jumps@.len() ==> writable(#[trigger] hops(profile.jumps@)[i])
}

/// A number in decimal is trimmed.
proof fn lemma_decimal_is_trimmed(n: nat)
    ensures
        trimmed(decimal(n)) == decimal(n),
{
    lemma_decimal_reads_back(n);
    let s = decimal(n);
    assert(is_digit(s[0]));
    assert(is_digit(s[s.len() - 1]));
}

/// A session that is saved keeps no stale passphrase: one is stored only where its way of
/// authenticating uses a key. Nor does a password stay stored that was emptied.
pub proof fn law_no_stale_passphrase_is_kept(form: &ProfileForm)
    ensures
        !uses_key(form.auth_method) ==> passphrase_action(form) is Delete,
        form.passphrase@.len() == 0 ==> passphrase_action(form) is Delete,
        form.auth_method == AuthMethod::Password && form.password@.len() == 0
            ==> password_action(form) is Delete,
{
}

/// Whether what is written is what a session already holds.
pub open spec fn writes_back(save: &ProfileSave, profile: &ConnectionProfile) -> bool {
    &&& save.group@ == profile.group@
    &&& save.name@ == profile.name@
    &&& save.host@ == profile.host@
    &&& save.port == profile.port
    &&& save.username@ == profile.username@
    &&& save.auth_method == profile.auth_method
    &&& save.identity_file@ == profile.identity_file@
    &&& save.protocol == profile.protocol
    &&& save.icon@ == profile.icon@
    &&& save.startup_command@ == profile.startup_command@
    &&& hops(save.jumps@) == hops(profile.jumps@)
    &&& save.terminal_type@ == profile.terminal_type@
    &&& save.environment == profile.environment
    &&& chars(save.accent_color) == chars(profile.accent_color)
    &&& chars(save.label) == chars(profile.label)
}

/// A session that is opened in the editor and saved again unchanged is written
/// as it was, in every field. And the editor shows it as unchanged.
pub proof fn law_saving_an_untouched_form_changes_nothing(
    form: &ProfileForm,
    profile: &ConnectionProfile,
    password: Option<String>,
    passphrase: Option<String>,
)
    requires
        filled_from(form, profile, password, passphrase),
        savable(profile),
    ensures
        port_value(form.port@) == Some(profile.port as nat),
        parsed_chain(form.jumps@) == Ok::<Seq<Hop>, Seq<char>>(hops(profile.jumps@)),
        optional(form.accent_color@) == chars(profile.accent_color),
        optional(form.label@) == chars(profile.label),
        forall|save: ProfileSave| #[trigger]
            is_save_of(&save, form) ==> writes_back(&save, profile),
        form_matches(form, profile),
{
    let n = profile.port as nat;
    lemma_decimal_is_trimmed(n);
    lemma_decimal_reads_back(n);
    assert(is_digit(decimal(n)[0]));
    assert(without_plus(decimal(n)) =~= decimal(n));
    law_a_written_chain_reads_back(hops(profile.jumps@));
    lemma_chain_ends(hops(profile.jumps@));
}

/// What is saved is what stands in the fields.
pub proof fn law_a_form_is_saved_as_it_is_typed(save: &ProfileSave, form: &ProfileForm)
    requires
        is_save_of(save, form),
    ensures
        save.group@ == form.group@,
        save.name@ == form.name@,
        save.host@ == form.host@,
        save.username@ == form.username@,
        save.identity_file@ == form.identity_file@,
        save.startup_command@ == form.startup_command@,
        save.terminal_type@ == form.terminal_type@,
        save.icon@ == form.icon@,
        save.auth_method == form.auth_method,
        save.protocol == form.protocol,
        save.environment == form.environment,
        save.accent_color is None <==> blank(form.accent_color@),
        save.accent_color matches Some(s) ==> s@ == trimmed(form.accent_color@),
        save.label is None <==> blank(form.label@),
        save.label matches Some(s) ==> s@ == trimmed(form.label@),
{
}

/// A password is stored where one is typed for password authentication; the other ways
/// leave what is stored. A passphrase is stored where one is typed for a key.
pub proof fn law_typed_secrets_are_stored(form: &ProfileForm)
    ensures
        form.auth_method == AuthMethod::Password && form.password@.len() > 0
            ==> password_action(form) == SecretAction::Save(form.password),
        form.auth_method != AuthMethod::Password ==> password_action(form) == SecretAction::Keep,
        form.auth_method == AuthMethod::Key && form.passphrase@.len() > 0 ==> passphrase_action(
            form,
        ) == SecretAction::Save(form.passphrase),
        form.auth_method == AuthMethod::Auto && form.passphrase@.len() > 0 ==> passphrase_action(
            form,
        ) == SecretAction::Save(form.passphrase),
        form.auth_method == AuthMethod::Password ==> passphrase_action(form)
            == SecretAction::Delete,
{
}

/// A form that shows two sessions as unchanged shows them alike: any difference in a
/// field counts as a change.
pub proof fn law_every_field_counts_as_a_change(
    form: &ProfileForm,
    one: &ConnectionProfile,
    other: &ConnectionProfile,
)
    requires
        form_matches(form, one),
        form_matches(form, other),
    ensures
        one.group@ == other.group@,
        one.name@ == other.name@,
        one.host@ == other.host@,
        one.port == other.port,
        one.username@ == other.username@,
        one.auth_method == other.auth_method,
        one.identity_file@ == other.identity_file@,
        one.protocol == other.protocol,
        one.startup_command@ == other.startup_command@,
        one.terminal_type@ == other.terminal_type@,
        one.environment == other.environment,
        chain_text(hops(one.jumps@)) == chain_text(hops(other.jumps@)),
        or_empty(one.accent_color) == or_empty(other.accent_color),
        or_empty(one.label) == or_empty(other.label),
{
    lemma_decimal_reads_back(one.port as nat);
    lemma_decimal_reads_back(other.port as nat);
}

/// A complete form leads to a user, an at sign, a host, a colon and a port, as typed but
/// for the blanks around them.
pub proof fn law_a_form_leads_where_it_says(form: &ProfileForm)
    requires
        !blank(form.username@),
        !blank(form.host@),
        !blank(form.port@),
    ensures
        form_endpoint_text(form) == trimmed(form.username@).push('@') + trimmed(form.host@).push(
            ':',
        ) + trimmed(form.port@),
{
    let (user, host, port) = (
        trimmed(form.username@),
        trimmed(form.host@),
        trimmed(form.port@),
    );
    assert(user + seq!['@'] + host + seq![':'] + port =~= user.push('@') + host.push(':') + port);
}

} // verus!
