//! The configuration of a connection, and how a request for one is turned into it.

use vstd::prelude::*;
use vstd::string::*;
use vstd::utf8::encode_utf8;

use crate::adc::{Environment, EnvironmentView};
use crate::base64::decoded;
use crate::form::escaped;
use crate::http::PayloadView;
use crate::json::outcome;
use crate::number::decimal;
use crate::oauth::{
    a_service_account_signs_its_own_claims, impersonate_service_account,
    impersonation_document, impersonation_request, GcpServiceAccountKey, KeyView,
    TOKEN_SECONDS,
};
use crate::redaction::{
    masked, maskable, occurs, push_sensitive, redact, redaction_leaves_no_secret,
};
use crate::signing::signature_by;
use crate::text::{
    a_mark_begins_a_piece, borrowed, copies, opens_with, owned, pieces, split, starts_after_space, trim, trimmed,
    without_a_mark_there_is_one_piece,
};
use crate::token::{
    ask_as, asking, by_default, fetch_adc_token, SendRun, SendRunView, TokenStep, TokenStepView,
};

verus! {

/// The scope that a connection asks for.
pub open spec fn bigquery_scope() -> Seq<char> {
    "https://www.googleapis.com/auth/bigquery"@
}

// --------------------------------------------------------------- configuration

/// What a connection needs to talk to BigQuery, and what its messages must not show.
#[derive(Debug, PartialEq, Eq)]
pub struct BigQueryConfig {
    pub project_id: String,
    pub access_token: String,
    pub location: Option<String>,
    pub redaction_values: Vec<String>,
}

/// What a `BigQueryConfig` says.
pub ghost struct ConfigView {
    pub project_id: Seq<char>,
    pub access_token: Seq<char>,
    pub location: Option<Seq<char>>,
    pub redaction_values: Seq<Seq<char>>,
}

impl View for BigQueryConfig {
    type V = ConfigView;

    open spec fn view(&self) -> ConfigView {
        ConfigView {
            project_id: self.project_id@,
            access_token: self.access_token@,
            location: self.location.deep_view(),
            redaction_values: self.redaction_values.deep_view(),
        }
    }
}

impl DeepView for BigQueryConfig {
    type V = ConfigView;

    open spec fn deep_view(&self) -> ConfigView {
        self@
    }
}

impl ConfigView {
    /// The access token is among the values that no message shows, unless it is
    /// empty.
    pub open spec fn guarded(self) -> bool {
        self.access_token.len() > 0 ==> self.redaction_values.contains(self.access_token)
    }

    /// A message as it may be shown.
    pub open spec fn shown(self, message: Seq<char>) -> Seq<char> {
        masked(message, self.redaction_values)
    }
}

impl Clone for BigQueryConfig {
    fn clone(&self) -> (copy: BigQueryConfig)
        ensures
            copy@ == self@,
    {
        BigQueryConfig {
            project_id: self.project_id.clone(),
            access_token: self.access_token.clone(),
            location: owned(borrowed(&self.location)),
            redaction_values: copies(&self.redaction_values),
        }
    }
}

impl BigQueryConfig {
    /// A message with a mask in place of each value that it must not show.
    pub fn redact(&self, message: &str) -> (out: String)
        ensures
            out@ == self@.shown(message@),
    {
        redact(message, &self.redaction_values)
    }
}

// -------------------------------------------------------------------- settings

/// A setting that a request may hold.
#[derive(Debug, Clone, Copy, PartialEq, Eq)]
pub enum Setting {
    /// A service account key, as a JSON document.
    ServiceAccount,
    /// A secret that can be a service account key too.
    InlineKey,
    Project,
    Token,
    /// The service account to impersonate.
    Target,
    /// The service accounts by way of which it is impersonated.
    Delegates,
    Location,
}

/// The names under which a request may hold a setting, the one that counts first
/// coming first.
pub open spec fn setting_names(setting: Setting) -> Seq<Seq<char>> {
    match setting {
        Setting::ServiceAccount => seq![
            "serviceAccountJson"@,
            "credentialsJson"@,
            "serviceAccountKey"@,
        ],
        Setting::InlineKey => seq!["password"@, "privateKey"@],
        Setting::Project => seq!["projectId"@, "project"@, "database"@, "db"@, "host"@],
        Setting::Token => seq![
            "token"@,
            "accessToken"@,
            "oauthAccessToken"@,
            "bearerToken"@,
            "password"@,
        ],
        Setting::Target => seq!["impersonateServiceAccount"@, "serviceAccountImpersonation"@],
        Setting::Delegates => seq!["impersonationDelegates"@],
        Setting::Location => seq!["location"@, "region"@],
    }
}

impl Setting {
    /// The names under which a request may hold this setting.
    pub fn names(self) -> (names: Vec<&'static str>)
        ensures
            names.deep_view() == setting_names(self),
    {
        let names: Vec<&'static str> = match self {
            Setting::ServiceAccount => vec![
                "serviceAccountJson",
                "credentialsJson",
                "serviceAccountKey",
            ],
            Setting::InlineKey => vec!["password", "privateKey"],
            Setting::Project => vec!["projectId", "project", "database", "db", "host"],
            Setting::Token => vec![
                "token",
                "accessToken",
                "oauthAccessToken",
                "bearerToken",
                "password",
            ],
            Setting::Target => vec!["impersonateServiceAccount", "serviceAccountImpersonation"],
            Setting::Delegates => vec!["impersonationDelegates"],
            Setting::Location => vec!["location", "region"],
        };
        assert(names.deep_view() =~= setting_names(self));
        names
    }
}

/// What a request says of each setting.
#[derive(Debug, PartialEq, Eq)]
pub struct ConnectOptions {
    pub service_account: Option<String>,
    pub inline_key: Option<String>,
    pub project: Option<String>,
    pub token: Option<String>,
    pub target: Option<String>,
    pub delegates: Option<String>,
    pub location: Option<String>,
}

/// What `ConnectOptions` say.
pub ghost struct OptionsView {
    pub service_account: Option<Seq<char>>,
    pub inline_key: Option<Seq<char>>,
    pub project: Option<Seq<char>>,
    pub token: Option<Seq<char>>,
    pub target: Option<Seq<char>>,
    pub delegates: Option<Seq<char>>,
    pub location: Option<Seq<char>>,
}

impl View for ConnectOptions {
    type V = OptionsView;

    open spec fn view(&self) -> OptionsView {
        OptionsView {
            service_account: self.service_account.deep_view(),
            inline_key: self.inline_key.deep_view(),
            project: self.project.deep_view(),
            token: self.token.deep_view(),
            target: self.target.deep_view(),
            delegates: self.delegates.deep_view(),
            location: self.location.deep_view(),
        }
    }
}

/// The parts that are more than white space, without the white space around them.
pub open spec fn filled_parts(parts: Seq<Seq<char>>) -> Seq<Seq<char>>
    decreases parts.len(),
{
    if parts.len() == 0 {
        Seq::empty()
    } else {
        let before = filled_parts(parts.drop_last());
        if trimmed(parts.last()).len() == 0 {
            before
        } else {
            before.push(trimmed(parts.last()))
        }
    }
}

/// The delegates in a list with commas.
pub open spec fn delegate_list(list: Option<Seq<char>>) -> Seq<Seq<char>> {
    match list {
        Some(text) => filled_parts(pieces(text, ',')),
        None => Seq::empty(),
    }
}

/// The delegates in a list with commas.
pub fn delegates_in(list: &Option<String>) -> (delegates: Vec<String>)
    ensures
        delegates.deep_view() == delegate_list(list.deep_view()),
{
    let mut delegates: Vec<String> = Vec::new();
    if let Some(text) = list {
        let parts = split(text.as_str(), ',');
        let ghost all = parts.deep_view();
        let mut i: usize = 0;
        proof {
            assert(all.take(0) =~= Seq::empty());
            assert(delegates.deep_view() =~= filled_parts(all.take(0)));
        }
        while i < parts.len()
            invariant
                i <= parts.len(),
                all == parts.deep_view(),
                delegates.deep_view() == filled_parts(all.take(i as int)),
            decreases parts.len() - i,
        {
            assert(all.take(i + 1).drop_last() =~= all.take(i as int));
            let ghost before = delegates.deep_view();
            let part = trim(parts[i].as_str());
            if !part.as_str().is_empty() {
                delegates.push(part);
                assert(delegates.deep_view() =~= before.push(part@));
            }
            i += 1;
        }
        assert(all.take(all.len() as int) =~= all);
    } else {
        assert(delegates.deep_view() =~= Seq::empty());
    }
    delegates
}

// ----------------------------------------------------------------------- steps

/// What a connection wants of its token, once there is one.
#[derive(Debug, PartialEq, Eq)]
pub struct ConfigRun {
    /// The service account to impersonate, unless that was done.
    pub target: Option<String>,
    pub delegates: Vec<String>,
    pub location: Option<String>,
}

/// What to do next for a configuration.
#[derive(Debug, PartialEq, Eq)]
pub enum ConfigStep {
    /// Read a service account key out of `text`, and resume with it, or with why
    /// it is none, and with the time.
    ReadKey { text: String, run: ConfigRun },
    /// Come by a token, starting with `step`, and resume with how that ended.
    Acquire { step: TokenStep, project_id: String, run: ConfigRun },
    /// The configuration is there, or there will be none.
    Finish(Result<BigQueryConfig, String>),
}

/// What a `ConfigRun` says.
pub ghost struct ConfigRunView {
    pub target: Option<Seq<char>>,
    pub delegates: Seq<Seq<char>>,
    pub location: Option<Seq<char>>,
}

/// What a `ConfigStep` says.
pub ghost enum ConfigStepView {
    ReadKey { text: Seq<char>, run: ConfigRunView },
    Acquire { step: TokenStepView, project_id: Seq<char>, run: ConfigRunView },
    Finish(Result<ConfigView, Seq<char>>),
}

impl View for ConfigRun {
    type V = ConfigRunView;

    open spec fn view(&self) -> ConfigRunView {
        ConfigRunView {
            target: self.target.deep_view(),
            delegates: self.delegates.deep_view(),
            location: self.location.deep_view(),
        }
    }
}

impl View for ConfigStep {
    type V = ConfigStepView;

    open spec fn view(&self) -> ConfigStepView {
        match self {
            ConfigStep::ReadKey { text, run } => ConfigStepView::ReadKey { text: text@, run: run@ },
            ConfigStep::Acquire { step, project_id, run } => ConfigStepView::Acquire {
                step: step@,
                project_id: project_id@,
                run: run@,
            },
            ConfigStep::Finish(config) => ConfigStepView::Finish(outcome(*config)),
        }
    }
}

impl ConfigStepView {
    /// A token that is being come by can be resumed.
    pub open spec fn sound(self) -> bool {
        match self {
            ConfigStepView::Acquire { step, .. } => step.sound(),
            _ => true,
        }
    }
}

impl ConfigRunView {
    /// What follows when a token is there, or there will be none: the token is
    /// exchanged for one of the target, where there is a target; else the
    /// configuration is done.
    pub open spec fn obtained(
        self,
        project_id: Seq<char>,
        token: Result<Seq<char>, Seq<char>>,
    ) -> ConfigStepView {
        match token {
            Err(why) => ConfigStepView::Finish(Err(why)),
            Ok(access_token) => match self.target {
                Some(target) => ConfigStepView::Acquire {
                    step: TokenStepView::Send {
                        request: impersonation_request(
                            access_token,
                            target,
                            bigquery_scope(),
                            self.delegates,
                        ),
                        run: SendRunView::Impersonation,
                    },
                    project_id,
                    run: ConfigRunView { target: None, ..self },
                },
                None => ConfigStepView::Finish(
                    Ok(
                        ConfigView {
                            project_id,
                            access_token,
                            location: self.location,
                            redaction_values: if access_token.len() > 0 {
                                seq![access_token]
                            } else {
                                Seq::empty()
                            },
                        },
                    ),
                ),
            },
        }
    }

    /// What follows when a key was read, or there is none.
    pub open spec fn key_read(self, key: Result<KeyView, Seq<char>>, now: nat) -> ConfigStepView {
        match key {
            Err(why) => ConfigStepView::Finish(
                Err("invalid Google service account JSON: "@ + why),
            ),
            Ok(key) => ConfigStepView::Acquire {
                step: asking(key.client_email, key.private_key, now),
                project_id: key.project_id,
                run: self,
            },
        }
    }
}

impl ConfigRun {
    /// What follows when a token is there, or there will be none.
    pub fn obtained(self, project_id: String, token: Result<String, String>) -> (step: ConfigStep)
        ensures
            step@ == self@.obtained(project_id@, outcome(token)),
            step@.sound(),
    {
        match token {
            Err(why) => ConfigStep::Finish(Err(why)),
            Ok(access_token) => match self.target {
                Some(target) => {
                    let request = impersonate_service_account(
                        access_token.as_str(),
                        target.as_str(),
                        "https://www.googleapis.com/auth/bigquery",
                        &self.delegates,
                    );
                    ConfigStep::Acquire {
                        step: TokenStep::Send { request, run: SendRun::Impersonation },
                        project_id,
                        run: ConfigRun {
                            target: None,
                            delegates: self.delegates,
                            location: self.location,
                        },
                    }
                },
                None => {
                    let mut redaction_values: Vec<String> = Vec::new();
                    assert(redaction_values.deep_view() =~= Seq::empty());
                    push_sensitive(&mut redaction_values, Some(access_token.as_str()));
                    assert(Seq::empty().push(access_token@) =~= seq![access_token@]);
                    ConfigStep::Finish(
                        Ok(
                            BigQueryConfig {
                                project_id,
                                access_token,
                                location: self.location,
                                redaction_values,
                            },
                        ),
                    )
                },
            },
        }
    }

    /// What follows when a key was read, or there is none, at the time `now`.
    pub fn key_read(self, key: Result<GcpServiceAccountKey, String>, now: u64) -> (step: ConfigStep)
        requires
            now + TOKEN_SECONDS <= u64::MAX,
        ensures
            step@ == self@.key_read(outcome(key), now as nat),
            step@.sound(),
    {
        match key {
            Err(why) => ConfigStep::Finish(
                Err("invalid Google service account JSON: ".to_owned().concat(why.as_str())),
            ),
            Ok(key) => ConfigStep::Acquire {
                step: ask_as(key.client_email.as_str(), key.private_key.as_str(), now),
                project_id: key.project_id,
                run: self,
            },
        }
    }
}

impl OptionsView {
    /// The service account key in a request: the setting for it, else a secret
    /// that looks like one.
    pub open spec fn key_text(self) -> Option<Seq<char>> {
        match (self.service_account, self.inline_key) {
            (Some(text), _) => Some(text),
            (None, Some(secret)) => if opens_with(secret, '{') {
                Some(secret)
            } else {
                None
            },
            (None, None) => None,
        }
    }

    /// What a connection wants of its token, once there is one.
    pub open spec fn wants(self) -> ConfigRunView {
        ConfigRunView {
            target: self.target,
            delegates: delegate_list(self.delegates),
            location: self.location,
        }
    }

    /// The first step towards a configuration: by the service account key in the
    /// request; else by the token in the request, or else in the environment;
    /// else by Application Default Credentials.
    pub open spec fn first_step(self, environment: EnvironmentView) -> ConfigStepView {
        match self.key_text() {
            Some(text) => ConfigStepView::ReadKey { text, run: self.wants() },
            None => match self.project {
                None => ConfigStepView::Finish(
                    Err("BigQuery requires projectId, database, or host."@),
                ),
                Some(project_id) => match (self.token, environment.access_token) {
                    (Some(token), _) => self.wants().obtained(project_id, Ok(token)),
                    (None, Some(token)) => self.wants().obtained(project_id, Ok(token)),
                    (None, None) => ConfigStepView::Acquire {
                        step: by_default(environment, bigquery_scope()),
                        project_id,
                        run: self.wants(),
                    },
                },
            },
        }
    }
}

/// The service account key in a request.
fn key_text_of(service_account: Option<String>, inline_key: Option<String>) -> (text: Option<
    String,
>)
    ensures
        text.deep_view() == (match (service_account.deep_view(), inline_key.deep_view()) {
            (Some(text), _) => Some(text),
            (None, Some(secret)) => if opens_with(secret, '{') {
                Some(secret)
            } else {
                None
            },
            (None, None) => None,
        }),
{
    match service_account {
        Some(text) => Some(text),
        None => match inline_key {
            Some(secret) => if starts_after_space(secret.as_str(), '{') {
                Some(secret)
            } else {
                None
            },
            None => None,
        },
    }
}

impl BigQueryConfig {
    /// The first step towards a configuration.
    pub fn from_request(options: ConnectOptions, environment: &Environment) -> (step: ConfigStep)
        ensures
            step@ == options@.first_step(environment@),
            step@.sound(),
    {
        let run = ConfigRun {
            target: options.target,
            delegates: delegates_in(&options.delegates),
            location: options.location,
        };
        match key_text_of(options.service_account, options.inline_key) {
            Some(text) => ConfigStep::ReadKey { text, run },
            None => match options.project {
                None => ConfigStep::Finish(
                    Err("BigQuery requires projectId, database, or host.".to_owned()),
                ),
                Some(project_id) => match options.token {
                    Some(token) => run.obtained(project_id, Ok(token)),
                    None => match &environment.access_token {
                        Some(token) => run.obtained(project_id, Ok(token.clone())),
                        None => ConfigStep::Acquire {
                            step: fetch_adc_token(
                                environment,
                                "https://www.googleapis.com/auth/bigquery",
                            ),
                            project_id,
                            run,
                        },
                    },
                },
            },
        }
    }
}

// ------------------------------------------------------------------------ laws

/// However a configuration was come by, its access token is among the values
/// that no message shows.
pub proof fn every_configuration_guards_its_token(
    run: ConfigRunView,
    project_id: Seq<char>,
    token: Result<Seq<char>, Seq<char>>,
)
    ensures
        (run.obtained(project_id, token) matches ConfigStepView::Finish(Ok(config))
            ==> config.guarded()),
{
    if let Ok(access_token) = token {
        assert(seq![access_token][0] == access_token);
    }
}

/// No message that is shown holds the access token, whatever the message is. A
/// token that shares a character with the mask is left out.
pub proof fn no_message_shows_the_token(config: ConfigView, message: Seq<char>)
    requires
        config.guarded(),
        maskable(config.access_token),
    ensures
        !occurs(config.shown(message), config.access_token),
{
    redaction_leaves_no_secret(message, config.redaction_values, config.access_token);
}

/// Where a request names a service account to impersonate, the configuration
/// holds the token of that account and not the one by which it was asked for;
/// and it is the token of the account that is kept out of messages.
pub proof fn impersonation_replaces_the_token(
    run: ConfigRunView,
    project_id: Seq<char>,
    own: Seq<char>,
    lent: Seq<char>,
)
    requires
        run.target is Some,
    ensures
        (run.obtained(project_id, Ok(own)) matches ConfigStepView::Acquire {
            step,
            project_id: project,
            run: rest,
        } && project == project_id && (step matches TokenStepView::Send { request, .. }
            && request.bearer == Some(own)) && (rest.obtained(project_id, Ok(lent))
            matches ConfigStepView::Finish(Ok(config)) && config.access_token == lent
            && config.guarded())),
{
    every_configuration_guards_its_token(
        ConfigRunView { target: None, ..run },
        project_id,
        Ok(lent),
    );
}

proof fn parts_go_piece_by_piece(before: Seq<Seq<char>>, after: Seq<Seq<char>>)
    ensures
        filled_parts(before + after) == filled_parts(before) + filled_parts(after),
    decreases after.len(),
{
    if after.len() == 0 {
        assert(before + after =~= before);
        assert(filled_parts(before) + filled_parts(after) =~= filled_parts(before));
    } else {
        parts_go_piece_by_piece(before, after.drop_last());
        assert((before + after).drop_last() =~= before + after.drop_last());
        assert(filled_parts(before + after) =~= filled_parts(before) + filled_parts(after));
    }
}

/// Delegates are listed with commas: what stands behind a comma follows on what
/// stands before it, and what holds no comma is one delegate without the white
/// space around it, or none where there is nothing else.
pub proof fn delegates_stand_between_commas(before: Seq<char>, last: Seq<char>)
    requires
        !last.contains(','),
    ensures
        delegate_list(Some(before + seq![','] + last)) == delegate_list(Some(before))
            + delegate_list(Some(last)),
        delegate_list(Some(last)) == (if trimmed(last).len() > 0 {
            seq![trimmed(last)]
        } else {
            Seq::empty()
        }),
        delegate_list(None).len() == 0,
{
    a_mark_begins_a_piece(before, ',', last);
    without_a_mark_there_is_one_piece(last, ',');
    parts_go_piece_by_piece(pieces(before, ','), seq![last]);
    assert(pieces(before, ',').push(last) =~= pieces(before, ',') + seq![last]);
    assert(filled_parts(seq![last].drop_last()) =~= Seq::empty());
    assert(filled_parts(seq![last]) =~= (if trimmed(last).len() > 0 {
        seq![trimmed(last)]
    } else {
        Seq::empty()
    }));
}

/// Which credentials a request leads to: a key in the setting for it, else one in
/// the secret, if the secret opens like a document; else, for the project of the
/// request, the token of the request, the token of the environment, or Application
/// Default Credentials, whichever there is first.
pub proof fn a_request_leads_to_its_credentials(
    options: OptionsView,
    environment: EnvironmentView,
    text: Seq<char>,
    project: Seq<char>,
)
    ensures
        ({
            let step = options.first_step(environment);
            let inline = options.service_account is None && options.inline_key is Some && opens_with(
                options.inline_key->0,
                '{',
            );
            let keyless = options.service_account is None && !inline;
            &&& options.service_account == Some(text) ==> (step matches ConfigStepView::ReadKey {
                text: read,
                ..
            } && read == text)
            &&& inline ==> (step matches ConfigStepView::ReadKey { text: read, .. } && Some(read)
                == options.inline_key)
            &&& keyless && options.project is None ==> step == ConfigStepView::Finish(
                Err("BigQuery requires projectId, database, or host."@),
            )
            &&& keyless && options.project == Some(project) && options.token == Some(text) ==> step
                == options.wants().obtained(project, Ok(text))
            &&& keyless && options.project == Some(project) && options.token is None
                && environment.access_token == Some(text) ==> step == options.wants().obtained(
                project,
                Ok(text),
            )
            &&& keyless && options.project == Some(project) && options.token is None
                && environment.access_token is None ==> (step matches ConfigStepView::Acquire {
                step: first,
                project_id,
                ..
            } && project_id == project && first == by_default(
                environment,
                "https://www.googleapis.com/auth/bigquery"@,
            ))
        }),
{
}

/// A key that was read asks for a token as the account that it is for, and the
/// connection is to the key's own project. What the request wants of the token is
/// kept: the account to impersonate, the delegates and the location.
pub proof fn a_key_keeps_what_the_request_wants(
    run: ConfigRunView,
    key: KeyView,
    now: nat,
    why: Seq<char>,
)
    ensures
        (run.key_read(Ok(key), now) matches ConfigStepView::Acquire {
            step,
            project_id,
            run: kept,
        } && {
            &&& project_id == key.project_id
            &&& kept.target == run.target
            &&& kept.delegates == run.delegates
            &&& kept.location == run.location
            &&& (step matches TokenStepView::Send { request, run: sent } ==> sent is Assertion && (
            request.payload matches PayloadView::Form(body) && {
                let grant =
                    "grant_type=urn%3Aietf%3Aparams%3Aoauth%3Agrant-type%3Ajwt-bearer&assertion="@;
                let parts = pieces(body.skip(grant.len() as int), '.');
                &&& parts.len() == 3
                &&& decoded(parts[1]) == encode_utf8(
                    "{\"iss\":\""@ + key.client_email
                        + "\",\"scope\":\"https://www.googleapis.com/auth/bigquery\",\"aud\":\"https://oauth2.googleapis.com/token\",\"exp\":"@
                        + decimal(now + 3600) + ",\"iat\":"@ + decimal(now) + "}"@,
                )
                &&& signature_by(
                    key.private_key,
                    encode_utf8(parts[0] + seq!['.'] + parts[1]),
                ) == Ok::<Seq<u8>, Seq<char>>(decoded(parts[2]))
            }))
            &&& step is Send || (step matches TokenStepView::Finish(token) && token is Err)
        }),
        run.key_read(Err(why), now) == ConfigStepView::Finish(
            Err("invalid Google service account JSON: "@ + why),
        ),
{
    a_service_account_signs_its_own_claims(key.client_email, key.private_key, now);
}

/// What comes in while a configuration is being made.
pub ghost enum ConfigEvent {
    Key { key: Result<KeyView, Seq<char>>, now: nat },
    Token(Result<Seq<char>, Seq<char>>),
}

impl ConfigStepView {
    /// Where a configuration is after these events, for as long as each is what
    /// its step waits for.
    pub open spec fn after(self, events: Seq<ConfigEvent>) -> ConfigStepView
        decreases events.len(),
    {
        if events.len() == 0 {
            self
        } else {
            match (self, events[0]) {
                (ConfigStepView::ReadKey { run, .. }, ConfigEvent::Key { key, now }) => run.key_read(
                    key,
                    now,
                ).after(events.drop_first()),
                (
                    ConfigStepView::Acquire { project_id, run, .. },
                    ConfigEvent::Token(token),
                ) => run.obtained(project_id, token).after(events.drop_first()),
                _ => self,
            }
        }
    }

    /// Whether a token of the account that a request names was asked for, with the
    /// delegates of the request.
    pub open spec fn asks_for_the_target(self, options: OptionsView) -> bool {
        self matches ConfigStepView::Acquire { step, .. } && (step matches TokenStepView::Send {
            request,
            run,
        } && run is Impersonation && request.url
            == "https://iamcredentials.googleapis.com/v1/projects/-/serviceAccounts/"@ + escaped(
            options.target->0,
        ) + ":generateAccessToken"@ && request.payload == PayloadView::Document(
            impersonation_document(
                "https://www.googleapis.com/auth/bigquery"@,
                delegate_list(options.delegates),
            ),
        ))
    }

    /// Whether a step keeps to a request: to its location and, unless the request
    /// names a key, to its project; and to the account that it names, which is
    /// still to be asked for a token until it was.
    pub open spec fn keeps_to(self, options: OptionsView) -> bool {
        match self {
            ConfigStepView::ReadKey { run, .. } => {
                &&& run.location == options.location
                &&& run.target == options.target
                &&& run.delegates == delegate_list(options.delegates)
            },
            ConfigStepView::Acquire { project_id, run, .. } => {
                &&& run.location == options.location
                &&& options.key_text() is None ==> options.project == Some(project_id)
                &&& {
                    ||| run.target == options.target && run.delegates == delegate_list(
                        options.delegates,
                    )
                    ||| options.target is Some && run.target is None && self.asks_for_the_target(
                        options,
                    )
                }
            },
            ConfigStepView::Finish(Ok(config)) => {
                &&& config.location == options.location
                &&& options.key_text() is None ==> options.project == Some(config.project_id)
            },
            ConfigStepView::Finish(Err(_)) => true,
        }
    }
}

/// The step that a token leads to keeps to the request, and no configuration is
/// done before a token of the account that the request names was asked for.
pub proof fn a_token_keeps_to_the_request(
    options: OptionsView,
    step: ConfigStepView,
    token: Result<Seq<char>, Seq<char>>,
)
    requires
        step.keeps_to(options),
    ensures
        (step matches ConfigStepView::Acquire { project_id, run, .. } ==> {
            let next = run.obtained(project_id, token);
            &&& next.keeps_to(options)
            &&& options.target is Some && run.target is Some && token is Ok
                ==> next.asks_for_the_target(options)
            &&& options.target is Some && (next matches ConfigStepView::Finish(Ok(_)))
                ==> step.asks_for_the_target(options)
            &&& (next matches ConfigStepView::Finish(Ok(config)) ==> token == Ok::<
                Seq<char>,
                Seq<char>,
            >(config.access_token) && config.project_id == project_id)
            &&& (token matches Err(why) ==> next == ConfigStepView::Finish(Err(why)))
        }),
{
}

proof fn events_keep_to_the_request(
    options: OptionsView,
    step: ConfigStepView,
    events: Seq<ConfigEvent>,
)
    requires
        step.keeps_to(options),
        step is ReadKey ==> options.key_text() is Some,
    ensures
        step.after(events).keeps_to(options),
    decreases events.len(),
{
    if events.len() > 0 {
        match (step, events[0]) {
            (ConfigStepView::ReadKey { run, .. }, ConfigEvent::Key { key, now }) => {
                events_keep_to_the_request(options, run.key_read(key, now), events.drop_first());
            },
            (ConfigStepView::Acquire { project_id, run, .. }, ConfigEvent::Token(token)) => {
                a_token_keeps_to_the_request(options, step, token);
                events_keep_to_the_request(
                    options,
                    run.obtained(project_id, token),
                    events.drop_first(),
                );
            },
            _ => {},
        }
    }
}

/// However the tokens of a connection are come by, and whatever comes in on the
/// way, what is made of them keeps to the request: the configuration at the end
/// has the location of the request, and its project unless a key brings its own;
/// and every step before has still to ask for a token of the account that the
/// request names, or is asking for it, with the request's delegates.
pub proof fn a_configuration_keeps_to_its_request(
    options: OptionsView,
    environment: EnvironmentView,
    events: Seq<ConfigEvent>,
)
    ensures
        options.first_step(environment).keeps_to(options),
        options.first_step(environment).after(events).keeps_to(options),
        options.target is Some ==> !(options.first_step(environment) matches ConfigStepView::Finish(
            Ok(_),
        )),
{
    assert(options.first_step(environment).keeps_to(options));
    events_keep_to_the_request(options, options.first_step(environment), events);
}

/// A token is the one of the configuration where there is nobody to impersonate;
/// else it authorises the request for one of the target, and what is wanted
/// besides is kept for later.
pub proof fn a_token_makes_the_configuration_or_asks_for_the_targets(
    run: ConfigRunView,
    project: Seq<char>,
    token: Seq<char>,
)
    ensures
        run.target is None ==> (run.obtained(project, Ok(token)) matches ConfigStepView::Finish(
            Ok(config),
        ) && config.project_id == project && config.access_token == token && config.location
            == run.location && config.redaction_values.len() <= 1),
        (run.target matches Some(target) ==> (run.obtained(project, Ok(token))
            matches ConfigStepView::Acquire { step, project_id, run: kept } && project_id == project
            && kept.target is None && kept.location == run.location && kept.delegates
            == run.delegates && (step matches TokenStepView::Send { request, run: sent } && sent
            is Impersonation && request.bearer == Some(token) && request.url
            == "https://iamcredentials.googleapis.com/v1/projects/-/serviceAccounts/"@ + escaped(
            target,
        ) + ":generateAccessToken"@))),
{
}

/// The steps to a configuration are the ones that these laws speak of.
pub proof fn a_configuration_is_made_in_these_steps(
    options: ConnectOptions,
    environment: &Environment,
    run: ConfigRun,
    key: Result<GcpServiceAccountKey, String>,
    now: u64,
    project: String,
    token: Result<String, String>,
    step: ConfigStep,
    config: &BigQueryConfig,
    message: &str,
    shown: String,
)
    ensures
        call_ensures(BigQueryConfig::from_request, (options, environment), step) ==> step@
            == options@.first_step(environment@),
        call_ensures(ConfigRun::key_read, (run, key, now), step) ==> step@ == run@.key_read(
            outcome(key),
            now as nat,
        ),
        call_ensures(ConfigRun::obtained, (run, project, token), step) ==> step@ == run@.obtained(
            project@,
            outcome(token),
        ),
        call_ensures(BigQueryConfig::redact, (config, message), shown) ==> shown@ == masked(
            message@,
            config@.redaction_values,
        ),
{
}

/// A configuration, the settings of a request and what is wanted of a token are
/// told by what they hold, field by field.
pub proof fn settings_are_told_by_what_they_hold(
    config: BigQueryConfig,
    options: ConnectOptions,
    run: ConfigRun,
)
    ensures
        config@.project_id == config.project_id@,
        config@.access_token == config.access_token@,
        config@.location == config.location.deep_view(),
        config@.redaction_values == config.redaction_values.deep_view(),
        options@.service_account == options.service_account.deep_view(),
        options@.inline_key == options.inline_key.deep_view(),
        options@.project == options.project.deep_view(),
        options@.token == options.token.deep_view(),
        options@.target == options.target.deep_view(),
        options@.delegates == options.delegates.deep_view(),
        options@.location == options.location.deep_view(),
        run@.target == run.target.deep_view(),
        run@.delegates == run.delegates.deep_view(),
        run@.location == run.location.deep_view(),
{
}

/// A step is told by the key to read, by the token to come by and for which
/// project, or by how it ended.
pub proof fn a_step_is_told_by_what_it_holds(step: ConfigStep)
    ensures
        (match step {
            ConfigStep::ReadKey { text, run } => step@ == (ConfigStepView::ReadKey {
                text: text@,
                run: run@,
            }),
            ConfigStep::Acquire { step: first, project_id, run } => step@ == (
            ConfigStepView::Acquire { step: first@, project_id: project_id@, run: run@ }),
            ConfigStep::Finish(Ok(config)) => step@ == ConfigStepView::Finish(Ok(config@)),
            ConfigStep::Finish(Err(why)) => step@ == ConfigStepView::Finish(Err(why@)),
        }),
{
}

} // verus!
