//! Application Default Credentials.

use vstd::prelude::*;
use vstd::string::*;

use crate::json::{Json, JsonView};
use crate::text::{borrowed, same, trim};

verus! {

/// A credential file as Application Default Credentials stores it.
///
/// `gcloud auth application-default login` writes an `authorized_user` file,
/// which holds a refresh token and no key; the console writes a
/// `service_account` file; workload identity federation writes an
/// `external_account` file. Each needs an exchange of its own, and only the
/// `type` field says which one is there.
#[derive(Debug, PartialEq, Eq)]
pub enum AdcKind {
    ServiceAccount,
    AuthorizedUser,
    ExternalAccount,
    Unknown(String),
}

/// What an `AdcKind` says.
pub ghost enum AdcKindView {
    ServiceAccount,
    AuthorizedUser,
    ExternalAccount,
    Unknown(Seq<char>),
}

impl View for AdcKind {
    type V = AdcKindView;

    open spec fn view(&self) -> AdcKindView {
        match self {
            AdcKind::ServiceAccount => AdcKindView::ServiceAccount,
            AdcKind::AuthorizedUser => AdcKindView::AuthorizedUser,
            AdcKind::ExternalAccount => AdcKindView::ExternalAccount,
            AdcKind::Unknown(name) => AdcKindView::Unknown(name@),
        }
    }
}

/// The kind of credential that a document declares itself to be.
pub open spec fn declared_kind(document: JsonView) -> AdcKindView {
    match document.text_member("type"@) {
        Some(name) => if name == "service_account"@ {
            AdcKindView::ServiceAccount
        } else if name == "authorized_user"@ {
            AdcKindView::AuthorizedUser
        } else if name == "external_account"@ {
            AdcKindView::ExternalAccount
        } else {
            AdcKindView::Unknown(name)
        },
        None => AdcKindView::Unknown(Seq::empty()),
    }
}

/// The kind of credential that a document declares itself to be.
pub fn adc_kind(document: &Json) -> (kind: AdcKind)
    ensures
        kind@ == declared_kind(document@),
{
    match document.text_member("type") {
        Some(name) => if same(name, "service_account") {
            AdcKind::ServiceAccount
        } else if same(name, "authorized_user") {
            AdcKind::AuthorizedUser
        } else if same(name, "external_account") {
            AdcKind::ExternalAccount
        } else {
            AdcKind::Unknown(name.to_owned())
        },
        None => AdcKind::Unknown(String::new()),
    }
}

/// The directory in which `gcloud` keeps its configuration.
pub open spec fn gcloud_directory(
    cloudsdk_config: Option<Seq<char>>,
    home: Option<Seq<char>>,
) -> Option<Seq<char>> {
    match (cloudsdk_config, home) {
        (Some(directory), _) => Some(directory),
        (None, Some(home)) => Some(home + "/.config/gcloud"@),
        (None, None) => None,
    }
}

/// Where a credential file is looked for, first to last: the path given
/// explicitly, unless it is blank; then the file that `gcloud` writes.
pub open spec fn search_order(
    explicit: Option<Seq<char>>,
    cloudsdk_config: Option<Seq<char>>,
    home: Option<Seq<char>>,
) -> Seq<Seq<char>> {
    let named = match explicit {
        Some(path) => if crate::text::trimmed(path).len() > 0 {
            seq![crate::text::trimmed(path)]
        } else {
            Seq::empty()
        },
        None => Seq::empty(),
    };
    let known = match gcloud_directory(cloudsdk_config, home) {
        Some(directory) => seq![directory + "/application_default_credentials.json"@],
        None => Seq::empty(),
    };
    named + known
}

/// The paths at which Application Default Credentials looks for a credential
/// file, given the environment.
pub fn adc_paths_from(
    explicit: Option<&str>,
    cloudsdk_config: Option<&str>,
    home: Option<&str>,
) -> (paths: Vec<String>)
    ensures
        paths.deep_view() == search_order(
            explicit.deep_view(),
            cloudsdk_config.deep_view(),
            home.deep_view(),
        ),
{
    let mut paths: Vec<String> = Vec::new();
    if let Some(path) = explicit {
        let path = trim(path);
        if !path.as_str().is_empty() {
            paths.push(path);
        }
    }
    let directory: Option<String> = match cloudsdk_config {
        Some(directory) => Some(directory.to_owned()),
        None => match home {
            Some(home) => Some(home.to_owned().concat("/.config/gcloud")),
            None => None,
        },
    };
    if let Some(directory) = directory {
        paths.push(directory.concat("/application_default_credentials.json"));
    }
    assert(paths.deep_view() =~= search_order(
        explicit.deep_view(),
        cloudsdk_config.deep_view(),
        home.deep_view(),
    ));
    paths
}

/// What the environment says of credentials, variable by variable.
#[derive(Debug, PartialEq, Eq)]
pub struct Environment {
    /// `GOOGLE_OAUTH_ACCESS_TOKEN`.
    pub access_token: Option<String>,
    /// `GOOGLE_APPLICATION_CREDENTIALS`.
    pub credentials: Option<String>,
    /// `CLOUDSDK_CONFIG`.
    pub cloudsdk_config: Option<String>,
    /// `HOME`.
    pub home: Option<String>,
    /// `GCE_METADATA_HOST`.
    pub metadata_host: Option<String>,
}

/// What an `Environment` says.
pub ghost struct EnvironmentView {
    pub access_token: Option<Seq<char>>,
    pub credentials: Option<Seq<char>>,
    pub cloudsdk_config: Option<Seq<char>>,
    pub home: Option<Seq<char>>,
    pub metadata_host: Option<Seq<char>>,
}

impl View for Environment {
    type V = EnvironmentView;

    open spec fn view(&self) -> EnvironmentView {
        EnvironmentView {
            access_token: self.access_token.deep_view(),
            credentials: self.credentials.deep_view(),
            cloudsdk_config: self.cloudsdk_config.deep_view(),
            home: self.home.deep_view(),
            metadata_host: self.metadata_host.deep_view(),
        }
    }
}

impl EnvironmentView {
    /// Where a credential file is looked for, first to last.
    pub open spec fn paths(self) -> Seq<Seq<char>> {
        search_order(self.credentials, self.cloudsdk_config, self.home)
    }
}

/// The paths at which Application Default Credentials looks for a credential
/// file.
pub fn adc_paths(environment: &Environment) -> (paths: Vec<String>)
    ensures
        paths.deep_view() == environment@.paths(),
{
    adc_paths_from(
        borrowed(&environment.credentials),
        borrowed(&environment.cloudsdk_config),
        borrowed(&environment.home),
    )
}

// ------------------------------------------------------------------------ laws

/// The kind of a credential is told by the text under `type` and by nothing else.
pub proof fn the_type_tells_the_kind(document: JsonView, other: JsonView, kind: Seq<char>)
    ensures
        document.text_member("type"@) == Some("service_account"@) ==> declared_kind(document)
            is ServiceAccount,
        document.text_member("type"@) == Some("authorized_user"@) ==> declared_kind(document)
            is AuthorizedUser,
        document.text_member("type"@) == Some("external_account"@) ==> declared_kind(document)
            is ExternalAccount,
        document.text_member("type"@) == Some(kind) && kind != "service_account"@ && kind
            != "authorized_user"@ && kind != "external_account"@ ==> declared_kind(document)
            == AdcKindView::Unknown(kind),
        document.text_member("type"@) is None ==> declared_kind(document) == AdcKindView::Unknown(
            Seq::empty(),
        ),
        document.text_member("type"@) == other.text_member("type"@) ==> declared_kind(document)
            == declared_kind(other),
{
    reveal_strlit("service_account");
    reveal_strlit("authorized_user");
    reveal_strlit("external_account");
    assert("service_account"@[0] == 's' && "authorized_user"@[0] == 'a' && "external_account"@[0]
        == 'e');
}

/// A credential file is looked for where the environment says, unless it says
/// nothing but white space, and then where `gcloud` keeps its own: in its
/// configured directory, or else below the home directory. There is no third
/// place.
pub proof fn the_search_goes_from_the_given_path_to_the_known_one(
    explicit: Option<Seq<char>>,
    configured: Option<Seq<char>>,
    home: Option<Seq<char>>,
)
    ensures
        ({
            let paths = search_order(explicit, configured, home);
            let given = explicit is Some && crate::text::trimmed(explicit->0).len() > 0;
            let known = configured is Some || home is Some;
            &&& paths.len() == (if given {
                1int
            } else {
                0
            }) + (if known {
                1int
            } else {
                0
            })
            &&& given ==> paths[0] == crate::text::trimmed(explicit->0)
            &&& configured is Some ==> paths.last() == configured->0
                + "/application_default_credentials.json"@
            &&& configured is None && home is Some ==> paths.last() == home->0
                + "/.config/gcloud"@ + "/application_default_credentials.json"@
        }),
{
}

/// Each place of the search goes by its own variable.
pub proof fn each_variable_has_its_own_place(environment: EnvironmentView)
    ensures
        environment.paths() == search_order(
            environment.credentials,
            environment.cloudsdk_config,
            environment.home,
        ),
{
}

/// An environment is told by its variables, one by one.
pub proof fn an_environment_is_told_by_its_variables(environment: Environment)
    ensures
        environment@.access_token == environment.access_token.deep_view(),
        environment@.credentials == environment.credentials.deep_view(),
        environment@.cloudsdk_config == environment.cloudsdk_config.deep_view(),
        environment@.home == environment.home.deep_view(),
        environment@.metadata_host == environment.metadata_host.deep_view(),
{
}

} // verus!
