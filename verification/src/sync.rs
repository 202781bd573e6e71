//! Keeping the catalogue in step with a cloud service: which service, whether it
//! is filled in far enough to try.

use vstd::prelude::*;
use vstd::string::*;

use crate::text::{blank, is_blank, owned, trim, trimmed};

verus! {

/// The services that a catalogue can be kept on.
#[derive(Debug, Clone, Copy, PartialEq, Eq, Structural)]
pub enum SyncProvider {
    /// Kept nowhere else.
    Off,
    Gist,
    WebDav,
    S3,
    GoogleDrive,
    OneDrive,
    Dropbox,
}

impl SyncProvider {
    /// What a service is called.
    pub open spec fn name(self) -> Seq<char> {
        match self {
            SyncProvider::Off => "未启用"@,
            SyncProvider::Gist => "GitHub Gist"@,
            SyncProvider::WebDav => "WebDAV"@,
            SyncProvider::S3 => "S3 兼容存储"@,
            SyncProvider::GoogleDrive => "Google Drive"@,
            SyncProvider::OneDrive => "OneDrive"@,
            SyncProvider::Dropbox => "Dropbox"@,
        }
    }

    /// What a service is called.
    pub fn label(self) -> (r: &'static str)
        ensures
            r@ == self.name(),
    {
        match self {
            SyncProvider::Off => "未启用",
            SyncProvider::Gist => "GitHub Gist",
            SyncProvider::WebDav => "WebDAV",
            SyncProvider::S3 => "S3 兼容存储",
            SyncProvider::GoogleDrive => "Google Drive",
            SyncProvider::OneDrive => "OneDrive",
            SyncProvider::Dropbox => "Dropbox",
        }
    }

    /// Whether a service authorises in a browser and comes back by itself.
    pub open spec fn oauth(self) -> bool {
        self == SyncProvider::GoogleDrive || self == SyncProvider::OneDrive || self
            == SyncProvider::Dropbox
    }

    /// Whether a service authorises in a browser and comes back by itself.
    pub fn is_oauth(self) -> (r: bool)
        ensures
            r == self.oauth(),
    {
        match self {
            SyncProvider::GoogleDrive => true,
            SyncProvider::OneDrive => true,
            SyncProvider::Dropbox => true,
            _ => false,
        }
    }
}

/// What is filled in for the services.
#[derive(Debug, Clone)]
pub struct SyncSettings {
    pub provider: SyncProvider,
    pub gist_id: String,
    pub github_client_id: String,
    pub webdav_url: String,
    pub webdav_username: String,
    pub s3_endpoint: String,
    pub s3_region: String,
    pub s3_bucket: String,
    pub s3_key: String,
    pub s3_access_key: String,
    pub s3_path_style: bool,
    pub google_client_id: String,
    pub google_client_secret: String,
    pub onedrive_client_id: String,
    pub dropbox_client_id: String,
    pub include_credentials: bool,
}

/// The client ids and secrets that a build carries; empty where it has none.
#[derive(Debug, Clone)]
pub struct BuiltIn {
    pub github_id: String,
    pub google_id: String,
    pub google_secret: String,
    pub onedrive_id: String,
    pub onedrive_secret: String,
    pub dropbox_id: String,
    pub dropbox_secret: String,
}

/// Under which name the secret of a service is kept.
pub open spec fn secret_name(provider: SyncProvider) -> Option<Seq<char>> {
    match provider {
        SyncProvider::Off => None,
        SyncProvider::Gist => Some("sync.gist.token"@),
        SyncProvider::WebDav => Some("sync.webdav.password"@),
        SyncProvider::S3 => Some("sync.s3.secret_key"@),
        SyncProvider::GoogleDrive => Some("sync.gdrive.refresh_token"@),
        SyncProvider::OneDrive => Some("sync.onedrive.refresh_token"@),
        SyncProvider::Dropbox => Some("sync.dropbox.refresh_token"@),
    }
}

/// Under which name the secret of a service is kept; none where it needs none.
/// For a service that authorises in a browser that is the token that mints others.
pub fn sync_secret_name(provider: SyncProvider) -> (r: Option<&'static str>)
    ensures
        r is Some == secret_name(provider) is Some,
        r matches Some(name) ==> secret_name(provider) == Some(name@),
{
    match provider {
        SyncProvider::Off => None,
        SyncProvider::Gist => Some("sync.gist.token"),
        SyncProvider::WebDav => Some("sync.webdav.password"),
        SyncProvider::S3 => Some("sync.s3.secret_key"),
        SyncProvider::GoogleDrive => Some("sync.gdrive.refresh_token"),
        SyncProvider::OneDrive => Some("sync.onedrive.refresh_token"),
        SyncProvider::Dropbox => Some("sync.dropbox.refresh_token"),
    }
}

/// No two services keep their secrets under one name.
pub proof fn law_secrets_are_kept_apart(a: SyncProvider, b: SyncProvider)
    requires
        secret_name(a) is Some,
        secret_name(a) == secret_name(b),
    ensures
        a == b,
{
    reveal_strlit("sync.gist.token");
    reveal_strlit("sync.webdav.password");
    reveal_strlit("sync.s3.secret_key");
    reveal_strlit("sync.gdrive.refresh_token");
    reveal_strlit("sync.onedrive.refresh_token");
    reveal_strlit("sync.dropbox.refresh_token");
    let x = secret_name(a)->0;
    let y = secret_name(b)->0;
    assert(x.len() == y.len());
    assert(x[5] == y[5]);
    assert(x[6] == y[6]);
}

/// What was typed, without blanks around it, or what the build carries where
/// nothing was typed.
pub open spec fn typed_or_built_in(typed: Seq<char>, built_in: Seq<char>) -> Seq<char> {
    if blank(typed) {
        built_in
    } else {
        trimmed(typed)
    }
}

fn overridden(typed: &str, built_in: &str) -> (r: String)
    ensures
        r@ == typed_or_built_in(typed@, built_in@),
{
    if is_blank(typed) {
        owned(built_in)
    } else {
        trim(typed)
    }
}

/// The client id of a service.
pub open spec fn client_id(s: &SyncSettings, b: &BuiltIn, provider: SyncProvider) -> Seq<char> {
    match provider {
        SyncProvider::Gist => typed_or_built_in(s.github_client_id@, b.github_id@),
        SyncProvider::GoogleDrive => typed_or_built_in(s.google_client_id@, b.google_id@),
        SyncProvider::OneDrive => typed_or_built_in(s.onedrive_client_id@, b.onedrive_id@),
        SyncProvider::Dropbox => typed_or_built_in(s.dropbox_client_id@, b.dropbox_id@),
        _ => Seq::empty(),
    }
}

/// The client id of a service: the one that was typed, or the build's own.
pub fn sync_client_id(s: &SyncSettings, b: &BuiltIn, provider: SyncProvider) -> (r: String)
    ensures
        r@ == client_id(s, b, provider),
{
    match provider {
        SyncProvider::Gist => overridden(s.github_client_id.as_str(), b.github_id.as_str()),
        SyncProvider::GoogleDrive => overridden(
            s.google_client_id.as_str(),
            b.google_id.as_str(),
        ),
        SyncProvider::OneDrive => overridden(
            s.onedrive_client_id.as_str(),
            b.onedrive_id.as_str(),
        ),
        SyncProvider::Dropbox => overridden(s.dropbox_client_id.as_str(), b.dropbox_id.as_str()),
        _ => String::new(),
    }
}

/// The client secret of a service. Only one of them lets the user type one.
pub open spec fn client_secret(s: &SyncSettings, b: &BuiltIn, provider: SyncProvider) -> Seq<char> {
    match provider {
        SyncProvider::GoogleDrive => typed_or_built_in(s.google_client_secret@, b.google_secret@),
        SyncProvider::OneDrive => b.onedrive_secret@,
        SyncProvider::Dropbox => b.dropbox_secret@,
        _ => Seq::empty(),
    }
}

/// The client secret of a service.
pub fn sync_client_secret(s: &SyncSettings, b: &BuiltIn, provider: SyncProvider) -> (r: String)
    ensures
        r@ == client_secret(s, b, provider),
{
    match provider {
        SyncProvider::GoogleDrive => overridden(
            s.google_client_secret.as_str(),
            b.google_secret.as_str(),
        ),
        SyncProvider::OneDrive => owned(b.onedrive_secret.as_str()),
        SyncProvider::Dropbox => owned(b.dropbox_secret.as_str()),
        _ => String::new(),
    }
}

/// An authorisation to run.
pub struct OAuthRequest {
    pub provider: SyncProvider,
    pub client_id: String,
    /// Only where the service wants one.
    pub client_secret: Option<String>,
}

/// The authorisation to run for a service: none where the service has none, or
/// where there is no client id for it.
pub fn sync_oauth_config(s: &SyncSettings, b: &BuiltIn, provider: SyncProvider) -> (r: Option<
    OAuthRequest,
>)
    ensures
        r is Some == (provider.oauth() && !blank(client_id(s, b, provider))),
        r matches Some(request) ==> {
            &&& request.provider == provider
            &&& request.client_id@ == client_id(s, b, provider)
            &&& request.client_secret is Some == (provider == SyncProvider::GoogleDrive)
            &&& request.client_secret matches Some(secret) ==> secret@ == client_secret(
                s,
                b,
                provider,
            )
        },
{
    let id: String = sync_client_id(s, b, provider);
    if is_blank(id.as_str()) || !provider.is_oauth() {
        return None;
    }
    let secret: Option<String> = if provider == SyncProvider::GoogleDrive {
        Some(sync_client_secret(s, b, provider))
    } else {
        None
    };
    Some(OAuthRequest { provider, client_id: id, client_secret: secret })
}

/// What a service is reached with.
pub enum Backend {
    Gist { token: String, gist_id: Option<String> },
    WebDav { url: String, username: String, password: String },
    S3 {
        endpoint: String,
        region: String,
        bucket: String,
        key: String,
        access_key: String,
        secret_key: String,
        path_style: bool,
    },
    GoogleDrive { client_id: String, client_secret: String, refresh_token: String },
    OneDrive { client_id: String, refresh_token: String },
    Dropbox { client_id: String, refresh_token: String },
}

/// Whether a service is filled in far enough to try.
pub open spec fn ready(s: &SyncSettings, b: &BuiltIn, secret: Seq<char>) -> bool {
    match s.provider {
        SyncProvider::Off => false,
        SyncProvider::Gist => secret.len() > 0,
        SyncProvider::WebDav => !blank(s.webdav_url@) && secret.len() > 0,
        SyncProvider::S3 => !blank(s.s3_endpoint@) && !blank(s.s3_bucket@) && !blank(
            s.s3_access_key@,
        ) && secret.len() > 0,
        SyncProvider::GoogleDrive | SyncProvider::OneDrive | SyncProvider::Dropbox => !blank(
            client_id(s, b, s.provider),
        ) && secret.len() > 0,
    }
}

/// Whether a service is reached with what is filled in for it.
pub open spec fn reaches(
    backend: Backend,
    s: &SyncSettings,
    b: &BuiltIn,
    secret: Seq<char>,
) -> bool {
    match (s.provider, backend) {
        (SyncProvider::Gist, Backend::Gist { token, gist_id }) => {
            &&& token@ == secret
            &&& gist_id is Some == !blank(s.gist_id@)
            &&& gist_id matches Some(id) ==> id@ == trimmed(s.gist_id@)
        },
        (SyncProvider::WebDav, Backend::WebDav { url, username, password }) => {
            &&& url@ == trimmed(s.webdav_url@)
            &&& username@ == s.webdav_username@
            &&& password@ == secret
        },
        (
            SyncProvider::S3,
            Backend::S3 { endpoint, region, bucket, key, access_key, secret_key, path_style },
        ) => {
            &&& endpoint@ == trimmed(s.s3_endpoint@)
            &&& region@ == s.s3_region@
            &&& bucket@ == trimmed(s.s3_bucket@)
            &&& key@ == s.s3_key@
            &&& access_key@ == trimmed(s.s3_access_key@)
            &&& secret_key@ == secret
            &&& path_style == s.s3_path_style
        },
        (
            SyncProvider::GoogleDrive,
            Backend::GoogleDrive { client_id: id, client_secret: cs, refresh_token },
        ) => {
            &&& id@ == client_id(s, b, s.provider)
            &&& cs@ == client_secret(s, b, s.provider)
            &&& refresh_token@ == secret
        },
        (SyncProvider::OneDrive, Backend::OneDrive { client_id: id, refresh_token }) => {
            id@ == client_id(s, b, s.provider) && refresh_token@ == secret
        },
        (SyncProvider::Dropbox, Backend::Dropbox { client_id: id, refresh_token }) => {
            id@ == client_id(s, b, s.provider) && refresh_token@ == secret
        },
        _ => false,
    }
}

/// What the chosen service is reached with, given the secret that is kept for it
/// (empty where none is): nothing where it is not filled in far enough to try.
pub fn build_sync_backend(s: &SyncSettings, b: &BuiltIn, secret: String) -> (r: Option<Backend>)
    ensures
        r is Some == ready(s, b, secret@),
        r matches Some(backend) ==> reaches(backend, s, b, secret@),
{
    let has_secret: bool = secret.unicode_len() > 0;
    match s.provider {
        SyncProvider::Off => None,
        SyncProvider::Gist => {
            if !has_secret {
                return None;
            }
            let gist_id: Option<String> = if is_blank(s.gist_id.as_str()) {
                None
            } else {
                Some(trim(s.gist_id.as_str()))
            };
            Some(Backend::Gist { token: secret, gist_id })
        },
        SyncProvider::WebDav => {
            if is_blank(s.webdav_url.as_str()) || !has_secret {
                return None;
            }
            Some(
                Backend::WebDav {
                    url: trim(s.webdav_url.as_str()),
                    username: owned(s.webdav_username.as_str()),
                    password: secret,
                },
            )
        },
        SyncProvider::S3 => {
            if is_blank(s.s3_endpoint.as_str()) || is_blank(s.s3_bucket.as_str()) || is_blank(
                s.s3_access_key.as_str(),
            ) || !has_secret {
                return None;
            }
            Some(
                Backend::S3 {
                    endpoint: trim(s.s3_endpoint.as_str()),
                    region: owned(s.s3_region.as_str()),
                    bucket: trim(s.s3_bucket.as_str()),
                    key: owned(s.s3_key.as_str()),
                    access_key: trim(s.s3_access_key.as_str()),
                    secret_key: secret,
                    path_style: s.s3_path_style,
                },
            )
        },
        SyncProvider::GoogleDrive | SyncProvider::OneDrive | SyncProvider::Dropbox => {
            let id: String = sync_client_id(s, b, s.provider);
            if is_blank(id.as_str()) || !has_secret {
                return None;
            }
            match s.provider {
                SyncProvider::GoogleDrive => Some(
                    Backend::GoogleDrive {
                        client_id: id,
                        client_secret: sync_client_secret(s, b, s.provider),
                        refresh_token: secret,
                    },
                ),
                SyncProvider::OneDrive => Some(
                    Backend::OneDrive { client_id: id, refresh_token: secret },
                ),
                _ => Some(Backend::Dropbox { client_id: id, refresh_token: secret }),
            }
        },
    }
}

/// Nothing is tried without a secret.
pub proof fn law_nothing_is_tried_without_a_secret(s: &SyncSettings, b: &BuiltIn)
    ensures
        !ready(s, b, Seq::empty()),
{
}

/// What is typed for a service comes before what the build carries for it, and each
/// service has its own.
pub proof fn law_a_typed_client_comes_first(s: &SyncSettings, b: &BuiltIn)
    ensures
        !blank(s.github_client_id@) ==> client_id(s, b, SyncProvider::Gist) == trimmed(
            s.github_client_id@,
        ),
        blank(s.github_client_id@) ==> client_id(s, b, SyncProvider::Gist) == b.github_id@,
        !blank(s.google_client_id@) ==> client_id(s, b, SyncProvider::GoogleDrive) == trimmed(
            s.google_client_id@,
        ),
        blank(s.google_client_id@) ==> client_id(s, b, SyncProvider::GoogleDrive) == b.google_id@,
        !blank(s.onedrive_client_id@) ==> client_id(s, b, SyncProvider::OneDrive) == trimmed(
            s.onedrive_client_id@,
        ),
        blank(s.onedrive_client_id@) ==> client_id(s, b, SyncProvider::OneDrive)
            == b.onedrive_id@,
        !blank(s.dropbox_client_id@) ==> client_id(s, b, SyncProvider::Dropbox) == trimmed(
            s.dropbox_client_id@,
        ),
        blank(s.dropbox_client_id@) ==> client_id(s, b, SyncProvider::Dropbox) == b.dropbox_id@,
        !blank(s.google_client_secret@) ==> client_secret(s, b, SyncProvider::GoogleDrive)
            == trimmed(s.google_client_secret@),
        blank(s.google_client_secret@) ==> client_secret(s, b, SyncProvider::GoogleDrive)
            == b.google_secret@,
        client_secret(s, b, SyncProvider::OneDrive) == b.onedrive_secret@,
        client_secret(s, b, SyncProvider::Dropbox) == b.dropbox_secret@,
{
}

/// The service that is reached is the one that is chosen, with the secret that is stored
/// for it.
pub proof fn law_the_chosen_service_is_reached(
    backend: Backend,
    s: &SyncSettings,
    b: &BuiltIn,
    secret: Seq<char>,
)
    requires
        reaches(backend, s, b, secret),
    ensures
        match backend {
            Backend::Gist { token, gist_id } => {
                &&& s.provider == SyncProvider::Gist
                &&& token@ == secret
                &&& gist_id is None <==> blank(s.gist_id@)
            },
            Backend::WebDav { url, username, password } => {
                &&& s.provider == SyncProvider::WebDav
                &&& url@ == trimmed(s.webdav_url@)
                &&& username@ == s.webdav_username@
                &&& password@ == secret
            },
            Backend::S3 { endpoint, region, bucket, key, access_key, secret_key, path_style } => {
                &&& s.provider == SyncProvider::S3
                &&& endpoint@ == trimmed(s.s3_endpoint@)
                &&& region@ == s.s3_region@
                &&& bucket@ == trimmed(s.s3_bucket@)
                &&& key@ == s.s3_key@
                &&& access_key@ == trimmed(s.s3_access_key@)
                &&& secret_key@ == secret
                &&& path_style == s.s3_path_style
            },
            Backend::GoogleDrive { refresh_token, .. } => {
                &&& s.provider == SyncProvider::GoogleDrive
                &&& refresh_token@ == secret
            },
            Backend::OneDrive { refresh_token, .. } => {
                &&& s.provider == SyncProvider::OneDrive
                &&& refresh_token@ == secret
            },
            Backend::Dropbox { refresh_token, .. } => {
                &&& s.provider == SyncProvider::Dropbox
                &&& refresh_token@ == secret
            },
        },
{
}

/// A service is tried once all that it needs is there.
pub proof fn law_a_service_that_is_filled_in_is_tried(
    s: &SyncSettings,
    b: &BuiltIn,
    secret: Seq<char>,
)
    requires
        secret.len() > 0,
    ensures
        s.provider == SyncProvider::Off ==> !ready(s, b, secret),
        s.provider == SyncProvider::Gist ==> ready(s, b, secret),
        s.provider == SyncProvider::WebDav ==> ready(s, b, secret) == !blank(s.webdav_url@),
        s.provider == SyncProvider::S3 ==> ready(s, b, secret) == (!blank(s.s3_endpoint@)
            && !blank(s.s3_bucket@) && !blank(s.s3_access_key@)),
        s.provider.oauth() ==> ready(s, b, secret) == !blank(client_id(s, b, s.provider)),
        s.provider.oauth() <==> s.provider == SyncProvider::GoogleDrive || s.provider
            == SyncProvider::OneDrive || s.provider == SyncProvider::Dropbox,
{
}

/// The secrets of the services are kept under these names.
pub proof fn law_secrets_are_kept_under_these_names()
    ensures
        secret_name(SyncProvider::Off) is None,
        secret_name(SyncProvider::Gist) == Some("sync.gist.token"@),
        secret_name(SyncProvider::WebDav) == Some("sync.webdav.password"@),
        secret_name(SyncProvider::S3) == Some("sync.s3.secret_key"@),
        secret_name(SyncProvider::GoogleDrive) == Some("sync.gdrive.refresh_token"@),
        secret_name(SyncProvider::OneDrive) == Some("sync.onedrive.refresh_token"@),
        secret_name(SyncProvider::Dropbox) == Some("sync.dropbox.refresh_token"@),
{
}

} // verus!
