//! Access to Baidu Netdisk: the credentials stored in the user file, the
//! URLs of the authorization API, and the decisions of the login dialogue.

use vstd::prelude::*;

use crate::text::{
    confirmation, confirmation_of, holds_char, is_first_index, lemma_first_index_unique,
    lemma_trimmed_after_space, lemma_trimmed_not_empty, nth_piece, nth_piece_of, owned, trim,
    trimmed, uppercase, Confirmation,
};

verus! {

/// The key of the application on the Baidu platform.
pub const APP_KEY: &'static str = "*";

/// The secret of the application on the Baidu platform.
pub const SECRET_KEY: &'static str = "*";

/// The local file that keeps the tokens.
pub const USER_FILE: &'static str = "./user.txt";

/// The base of the authorization API.
pub const AUTH_BASE_URL: &'static str = "https://openapi.baidu.com/oauth/2.0/";

/// The user information endpoint.
pub const USER_INFO_QUERY_URL: &'static str = "https://pan.baidu.com/rest/2.0/xpan/nas?method=uinfo";

/// The credentials and the name of the signed-in user.
pub struct Config {
    pub access_token: String,
    pub refresh_token: String,
    pub user: String,
}

/// The answer of the device code request.
pub struct DeviceCodeResponse {
    pub device_code: String,
    pub user_code: String,
    pub verification_url: String,
}

/// The tokens granted to a device.
pub struct AuthCode {
    pub access_token: String,
    pub refresh_token: String,
}

/// The error part of a user information answer.
pub struct UserInfoErr {
    pub errno: i32,
    pub errmsg: String,
}

/// The user information answer.
pub struct UserInfo {
    pub baidu_name: String,
}

/// The token stored on line `line` of the user file `content`: what stands
/// after the first `:` of the line (up to a second `:`), trimmed.
pub open spec fn stored_token(content: Seq<char>, line: nat) -> Option<Seq<char>> {
    match nth_piece(content, '\n', line) {
        Some(l) => match nth_piece(l, ':', 1) {
            Some(v) => Some(trimmed(v)),
            None => None,
        },
        None => None,
    }
}

/// The text of the user file for the given tokens.
pub open spec fn user_file_text(access_token: Seq<char>, refresh_token: Seq<char>) -> Seq<char> {
    "access_token: "@ + access_token + "\nrefresh_token: "@ + refresh_token
}

/// Whether `content` holds nothing but whitespace.
pub open spec fn is_blank(content: Seq<char>) -> bool {
    trimmed(content).len() == 0
}

/// The token stored on line `line` of `content`.
fn token_on_line(content: &str, line: usize) -> (r: Option<&str>)
    ensures
        match r {
            Some(t) => stored_token(content@, line as nat) == Some(t@),
            None => stored_token(content@, line as nat) is None,
        },
{
    let l = nth_piece_of(content, '\n', line);
    match l {
        Some(l) => match nth_piece_of(l, ':', 1) {
            Some(v) => Some(trim(v)),
            None => None,
        },
        None => None,
    }
}

impl Config {
    /// The access token stored in the first line of the user file.
    pub fn extract_access_token(content: &str) -> (r: Option<&str>)
        ensures
            match r {
                Some(t) => stored_token(content@, 0) == Some(t@),
                None => stored_token(content@, 0) is None,
            },
    {
        token_on_line(content, 0)
    }

    /// The refresh token stored in the second line of the user file.
    pub fn extract_refresh_token(content: &str) -> (r: Option<&str>)
        ensures
            match r {
                Some(t) => stored_token(content@, 1) == Some(t@),
                None => stored_token(content@, 1) is None,
            },
    {
        token_on_line(content, 1)
    }

    /// The text written to the user file for the granted tokens.
    pub fn user_file_content(auth_code: &AuthCode) -> (r: String)
        ensures
            r@ == user_file_text(auth_code.access_token@, auth_code.refresh_token@),
    {
        let mut r = owned("access_token: ");
        r.append(auth_code.access_token.as_str());
        r.append("\nrefresh_token: ");
        r.append(auth_code.refresh_token.as_str());
        r
    }

    /// Whether the user file `content` holds nothing but whitespace.
    pub fn is_blank(content: &str) -> (b: bool)
        ensures
            b == is_blank(content@),
    {
        trim(content).is_empty()
    }

    /// The URL that asks for a device code.
    pub fn device_code_url() -> (r: String)
        ensures
            r@ == AUTH_BASE_URL@ + "device/code?response_type=device_code&client_id="@ + APP_KEY@
                + "&scope=basic,netdisk"@,
    {
        let mut r = owned(AUTH_BASE_URL);
        r.append("device/code?response_type=device_code&client_id=");
        r.append(APP_KEY);
        r.append("&scope=basic,netdisk");
        r
    }

    /// The URL that exchanges `device_code` for tokens.
    pub fn access_code_url(device_code: &str) -> (r: String)
        ensures
            r@ == AUTH_BASE_URL@ + "token?grant_type=device_token&code="@ + device_code@
                + "&client_id="@ + APP_KEY@ + "&client_secret="@ + SECRET_KEY@,
    {
        let mut r = owned(AUTH_BASE_URL);
        r.append("token?grant_type=device_token&code=");
        r.append(device_code);
        r.append("&client_id=");
        r.append(APP_KEY);
        r.append("&client_secret=");
        r.append(SECRET_KEY);
        r
    }

    /// The URL that asks for the information of the user of `access_token`.
    pub fn user_info_url(access_token: &str) -> (r: String)
        ensures
            r@ == USER_INFO_QUERY_URL@ + "&access_token="@ + access_token@,
    {
        let mut r = owned(USER_INFO_QUERY_URL);
        r.append("&access_token=");
        r.append(access_token);
        r
    }
}

impl UserInfoErr {
    /// A token is valid where the user information answer reports no error.
    pub fn token_is_valid(&self) -> (b: bool)
        ensures
            b == (self.errno == 0),
    {
        self.errno == 0
    }
}

/// A piece that holds no separator is its own first piece and has no
/// second one.
proof fn lemma_single_piece(s: Seq<char>, sep: char)
    requires
        !holds_char(s, sep),
    ensures
        nth_piece(s, sep, 0) == Some(s),
{
}

/// The value after `name:` on a line that holds no other `:`.
proof fn lemma_line_value(name: Seq<char>, token: Seq<char>)
    requires
        name.len() > 0,
        name.last() == ':',
        forall|j: int| 0 <= j < name.len() - 1 ==> name[j] != ':',
        !holds_char(token, ':'),
    ensures
        nth_piece(name + seq![' '] + token, ':', 1) == Some(seq![' '] + token),
{
    let l = name + seq![' '] + token;
    let k = name.len() - 1;
    assert(is_first_index(l, ':', k));
    lemma_first_index_unique(l, ':', k);
    assert(l.skip(k + 1) =~= seq![' '] + token);
    assert(!holds_char(seq![' '] + token, ':')) by {
        if holds_char(seq![' '] + token, ':') {
            let j = choose|j: int| 0 <= j < token.len() + 1 && (seq![' '] + token)[j] == ':';
            assert(token[j - 1] == ':');
        }
    }
    lemma_single_piece(seq![' '] + token, ':');
}

/// What the user file is written with, reading it gives back: the stored
/// tokens are the granted ones, trimmed, for tokens that hold no line break
/// and no `:`.
pub proof fn lemma_user_file_round_trip(access_token: Seq<char>, refresh_token: Seq<char>)
    requires
        !holds_char(access_token, '\n'),
        !holds_char(access_token, ':'),
        !holds_char(refresh_token, '\n'),
        !holds_char(refresh_token, ':'),
    ensures
        stored_token(user_file_text(access_token, refresh_token), 0) == Some(
            trimmed(access_token),
        ),
        stored_token(user_file_text(access_token, refresh_token), 1) == Some(
            trimmed(refresh_token),
        ),
{
    reveal_strlit("access_token: ");
    reveal_strlit("\nrefresh_token: ");
    let a = access_token;
    let r = refresh_token;
    let content = user_file_text(a, r);
    let first_name = "access_token:"@;
    reveal_strlit("access_token:");
    let second_name = "refresh_token:"@;
    reveal_strlit("refresh_token:");
    let first_line = first_name + seq![' '] + a;
    let second_line = second_name + seq![' '] + r;
    assert(content =~= first_line + seq!['\n'] + second_line);
    let k = first_line.len() as int;
    assert forall|j: int| 0 <= j < k implies content[j] != '\n' by {
        if j >= first_name.len() + 1 {
            assert(content[j] == a[j - first_name.len() - 1]);
        }
    }
    assert(is_first_index(content, '\n', k));
    lemma_first_index_unique(content, '\n', k);
    assert(content.take(k) =~= first_line);
    assert(content.skip(k + 1) =~= second_line);
    assert(!holds_char(second_line, '\n')) by {
        if holds_char(second_line, '\n') {
            let j = choose|j: int| 0 <= j < second_line.len() && second_line[j] == '\n';
            assert(r[j - second_name.len() - 1] == '\n');
        }
    }
    lemma_single_piece(second_line, '\n');
    assert(nth_piece(content, '\n', 1) == nth_piece(second_line, '\n', 0));
    lemma_line_value(first_name, a);
    lemma_line_value(second_name, r);
    lemma_trimmed_after_space(a);
    lemma_trimmed_after_space(r);
}

/// Where the start-up dialogue stands: each state waits for one event.
pub enum InitState {
    /// Waits for the content of the user file.
    ReadingLocal,
    /// Waits for the check of the access token stored in `content`.
    CheckingToken { content: String },
    /// Waits for the name of the user of the tokens.
    QueryingUser { access_token: String, refresh_token: String },
    /// Waits for a device code.
    RequestingDeviceCode,
    /// Waits for the user to confirm the login of `device_code`.
    AwaitingLogin { device_code: String },
    /// Waits for the tokens granted to the device.
    RequestingAccessCode,
    /// Waits for the user file to be written with the tokens.
    WritingUserFile { access_token: String, refresh_token: String },
    /// The dialogue is over.
    Finished,
}

/// What the outside world reports to the start-up dialogue.
pub enum InitEvent {
    /// The content of the user file, or `None` where there was no such file.
    LocalContent(Option<String>),
    /// Whether the stored access token is valid, or why it could not be
    /// checked.
    TokenChecked(Result<bool, String>),
    /// The name of the user.
    UserName(String),
    /// The answer of the device code request.
    DeviceCode(DeviceCodeResponse),
    /// The line the user entered, or why none could be read.
    Answer(Result<String, String>),
    /// The tokens granted to the device.
    AccessCode(AuthCode),
    /// The user file was written.
    UserFileWritten,
}

/// What the start-up dialogue asks the outside world to do next.
pub enum InitAction {
    /// Read the user file.
    ReadLocal,
    /// Check whether `access_token` is valid.
    CheckToken { access_token: String },
    /// Ask for the name of the user of `access_token`.
    QueryUser { access_token: String },
    /// Ask for a device code.
    RequestDeviceCode,
    /// Show where and with which code to log in, and ask for confirmation.
    AskLogin { verification_url: String, user_code: String },
    /// Say that the answer was not understood, and ask again.
    AskAgain,
    /// The user cancelled: stop the program.
    Cancel,
    /// Ask for the tokens granted to `device_code`.
    RequestAccessCode { device_code: String },
    /// Write `content` to the user file.
    WriteUserFile { content: String },
    /// Start-up is done with this configuration.
    Finish(Config),
    /// Start-up cannot go on: the event did not fit the state.
    Fail,
}

/// The step after the content of the user file (`None`: no file) was read:
/// the access token on the first line of a non-blank file is checked; a
/// blank or missing file, or one without an access token, leads to the login
/// with a device code.
pub open spec fn local_content_step(content: Option<String>, next: InitState, action: InitAction) -> bool {
    match content {
        Some(content) => if is_blank(content@) {
            next is RequestingDeviceCode && action is RequestDeviceCode
        } else {
            match stored_token(content@, 0) {
                Some(t) => {
                    &&& next matches InitState::CheckingToken { content: c } && c@ == content@
                    &&& action matches InitAction::CheckToken { access_token } && access_token@ == t
                },
                None => next is RequestingDeviceCode && action is RequestDeviceCode,
            }
        },
        None => next is RequestingDeviceCode && action is RequestDeviceCode,
    }
}

/// The step after the stored access token was checked: a valid one leads to
/// asking for the user with both stored tokens; an invalid one, a failed
/// check, or a file without a refresh token leads to the login.
pub open spec fn token_checked_step(
    content: Seq<char>,
    checked: Result<bool, String>,
    next: InitState,
    action: InitAction,
) -> bool {
    if checked != Ok::<bool, String>(true) {
        next is RequestingDeviceCode && action is RequestDeviceCode
    } else {
        match (stored_token(content, 0), stored_token(content, 1)) {
            (Some(a), Some(r)) => {
                &&& next matches InitState::QueryingUser { access_token, refresh_token }
                    && access_token@ == a && refresh_token@ == r
                &&& action matches InitAction::QueryUser { access_token } && access_token@ == a
            },
            _ => next is RequestingDeviceCode && action is RequestDeviceCode,
        }
    }
}

/// The step after the user answered the login prompt: `Y` (in any case)
/// goes on, `N` cancels, anything else is asked again.
pub open spec fn answer_step(device_code: Seq<char>, answer: Result<String, String>, next: InitState, action: InitAction) -> bool {
    let again = {
        &&& next matches InitState::AwaitingLogin { device_code: d } && d@ == device_code
        &&& action is AskAgain
    };
    match answer {
        Ok(line) => match confirmation_of(uppercase(line@)) {
            Confirmation::Yes => {
                &&& next is RequestingAccessCode
                &&& action matches InitAction::RequestAccessCode { device_code: d } && d@ == device_code
            },
            Confirmation::No => next is Finished && action is Cancel,
            Confirmation::Other => again,
        },
        Err(_) => again,
    }
}

/// One step of the start-up dialogue: from `state`, on `event`, to `next`,
/// asking for `action`.
pub open spec fn is_init_step(state: InitState, event: InitEvent, next: InitState, action: InitAction) -> bool {
    let fail = next is Finished && action is Fail;
    match state {
        InitState::ReadingLocal => match event {
            InitEvent::LocalContent(content) => local_content_step(content, next, action),
            _ => fail,
        },
        InitState::CheckingToken { content } => match event {
            InitEvent::TokenChecked(checked) => token_checked_step(content@, checked, next, action),
            _ => fail,
        },
        InitState::QueryingUser { access_token, refresh_token } => match event {
            InitEvent::UserName(name) => {
                &&& next is Finished
                &&& action matches InitAction::Finish(config) && config.access_token@
                    == access_token@ && config.refresh_token@ == refresh_token@ && config.user@
                    == name@
            },
            _ => fail,
        },
        InitState::RequestingDeviceCode => match event {
            InitEvent::DeviceCode(response) => {
                &&& next matches InitState::AwaitingLogin { device_code } && device_code@
                    == response.device_code@
                &&& action matches InitAction::AskLogin { verification_url, user_code }
                    && verification_url@ == response.verification_url@ && user_code@
                    == response.user_code@
            },
            _ => fail,
        },
        InitState::AwaitingLogin { device_code } => match event {
            InitEvent::Answer(answer) => answer_step(device_code@, answer, next, action),
            _ => fail,
        },
        InitState::RequestingAccessCode => match event {
            InitEvent::AccessCode(auth) => {
                &&& next matches InitState::WritingUserFile { access_token, refresh_token }
                    && access_token@ == auth.access_token@ && refresh_token@
                    == auth.refresh_token@
                &&& action matches InitAction::WriteUserFile { content } && content@
                    == user_file_text(auth.access_token@, auth.refresh_token@)
            },
            _ => fail,
        },
        InitState::WritingUserFile { access_token, refresh_token } => match event {
            InitEvent::UserFileWritten => {
                &&& next matches InitState::QueryingUser { access_token: a, refresh_token: r }
                    && a@ == access_token@ && r@ == refresh_token@
                &&& action matches InitAction::QueryUser { access_token: a } && a@
                    == access_token@
            },
            _ => fail,
        },
        InitState::Finished => fail,
    }
}

impl InitState {
    /// The start of the dialogue: read the user file.
    pub fn start() -> (r: (InitState, InitAction))
        ensures
            r.0 is ReadingLocal,
            r.1 is ReadLocal,
    {
        (InitState::ReadingLocal, InitAction::ReadLocal)
    }

    /// The next state of the dialogue, and what to do, after `event`.
    pub fn next(self, event: InitEvent) -> (r: (InitState, InitAction))
        ensures
            is_init_step(self, event, r.0, r.1),
    {
        match self {
            InitState::ReadingLocal => match event {
                InitEvent::LocalContent(Some(content)) => {
                    if Config::is_blank(content.as_str()) {
                        (InitState::RequestingDeviceCode, InitAction::RequestDeviceCode)
                    } else {
                        match Config::extract_access_token(content.as_str()) {
                            Some(t) => {
                                let access_token = owned(t);
                                (
                                    InitState::CheckingToken { content },
                                    InitAction::CheckToken { access_token },
                                )
                            },
                            None => (InitState::RequestingDeviceCode, InitAction::RequestDeviceCode),
                        }
                    }
                },
                InitEvent::LocalContent(None) => (
                    InitState::RequestingDeviceCode,
                    InitAction::RequestDeviceCode,
                ),
                _ => (InitState::Finished, InitAction::Fail),
            },
            InitState::CheckingToken { content } => match event {
                InitEvent::TokenChecked(checked) => {
                    let valid = match checked {
                        Ok(v) => v,
                        Err(_) => false,
                    };
                    if !valid {
                        (InitState::RequestingDeviceCode, InitAction::RequestDeviceCode)
                    } else {
                        let a = Config::extract_access_token(content.as_str());
                        let r = Config::extract_refresh_token(content.as_str());
                        match (a, r) {
                            (Some(a), Some(r)) => (
                                InitState::QueryingUser {
                                    access_token: owned(a),
                                    refresh_token: owned(r),
                                },
                                InitAction::QueryUser { access_token: owned(a) },
                            ),
                            _ => (InitState::RequestingDeviceCode, InitAction::RequestDeviceCode),
                        }
                    }
                },
                _ => (InitState::Finished, InitAction::Fail),
            },
            InitState::QueryingUser { access_token, refresh_token } => match event {
                InitEvent::UserName(user) => (
                    InitState::Finished,
                    InitAction::Finish(Config { access_token, refresh_token, user }),
                ),
                _ => (InitState::Finished, InitAction::Fail),
            },
            InitState::RequestingDeviceCode => match event {
                InitEvent::DeviceCode(response) => (
                    InitState::AwaitingLogin { device_code: response.device_code },
                    InitAction::AskLogin {
                        verification_url: response.verification_url,
                        user_code: response.user_code,
                    },
                ),
                _ => (InitState::Finished, InitAction::Fail),
            },
            InitState::AwaitingLogin { device_code } => match event {
                InitEvent::Answer(Ok(line)) => match confirmation(line.as_str()) {
                    Confirmation::Yes => (
                        InitState::RequestingAccessCode,
                        InitAction::RequestAccessCode { device_code },
                    ),
                    Confirmation::No => (InitState::Finished, InitAction::Cancel),
                    Confirmation::Other => (
                        InitState::AwaitingLogin { device_code },
                        InitAction::AskAgain,
                    ),
                },
                InitEvent::Answer(Err(_)) => (
                    InitState::AwaitingLogin { device_code },
                    InitAction::AskAgain,
                ),
                _ => (InitState::Finished, InitAction::Fail),
            },
            InitState::RequestingAccessCode => match event {
                InitEvent::AccessCode(auth) => {
                    let content = Config::user_file_content(&auth);
                    (
                        InitState::WritingUserFile {
                            access_token: auth.access_token,
                            refresh_token: auth.refresh_token,
                        },
                        InitAction::WriteUserFile { content },
                    )
                },
                _ => (InitState::Finished, InitAction::Fail),
            },
            InitState::WritingUserFile { access_token, refresh_token } => match event {
                InitEvent::UserFileWritten => {
                    let a = owned(access_token.as_str());
                    (
                        InitState::QueryingUser { access_token, refresh_token },
                        InitAction::QueryUser { access_token: a },
                    )
                },
                _ => (InitState::Finished, InitAction::Fail),
            },
            InitState::Finished => (InitState::Finished, InitAction::Fail),
        }
    }
}

/// The tokens granted at login are written so that the user file gives them
/// back: the text written holds, on its two lines, the granted tokens
/// (trimmed), for tokens that hold no line break and no `:`.
pub proof fn lemma_login_writes_readable_tokens(
    auth: AuthCode,
    next: InitState,
    action: InitAction,
)
    requires
        is_init_step(InitState::RequestingAccessCode, InitEvent::AccessCode(auth), next, action),
        !holds_char(auth.access_token@, '\n'),
        !holds_char(auth.access_token@, ':'),
        !holds_char(auth.refresh_token@, '\n'),
        !holds_char(auth.refresh_token@, ':'),
    ensures
        action matches InitAction::WriteUserFile { content } && stored_token(content@, 0) == Some(
            trimmed(auth.access_token@),
        ) && stored_token(content@, 1) == Some(trimmed(auth.refresh_token@)),
{
    lemma_user_file_round_trip(auth.access_token@, auth.refresh_token@);
}

/// A user file written at login leads the next start-up to check the
/// granted access token (trimmed), for tokens that hold no line break and
/// no `:`.
pub proof fn lemma_next_start_checks_written_token(
    access_token: Seq<char>,
    refresh_token: Seq<char>,
    content: String,
    next: InitState,
    action: InitAction,
)
    requires
        content@ == user_file_text(access_token, refresh_token),
        !holds_char(access_token, '\n'),
        !holds_char(access_token, ':'),
        !holds_char(refresh_token, '\n'),
        !holds_char(refresh_token, ':'),
        is_init_step(InitState::ReadingLocal, InitEvent::LocalContent(Some(content)), next, action),
    ensures
        action matches InitAction::CheckToken { access_token: t } && t@ == trimmed(access_token),
{
    lemma_user_file_round_trip(access_token, refresh_token);
    reveal_strlit("access_token: ");
    assert(content@[0] == 'a');
    lemma_trimmed_not_empty(content@);
}

/// Reading the user file never stops the start-up: whatever the file holds,
/// or where there is none, the next step checks a stored access token or
/// falls back to the login with a device code.
pub proof fn lemma_local_content_never_fails(
    content: Option<String>,
    next: InitState,
    action: InitAction,
)
    requires
        is_init_step(InitState::ReadingLocal, InitEvent::LocalContent(content), next, action),
    ensures
        action is CheckToken || (next is RequestingDeviceCode && action is RequestDeviceCode),
{
}

/// Where the stored tokens cannot be used (the access token is rejected, the
/// check failed, or the file holds no refresh token), the start-up falls back
/// to the login with a device code.
pub proof fn lemma_unusable_tokens_lead_to_login(
    content: String,
    checked: Result<bool, String>,
    next: InitState,
    action: InitAction,
)
    requires
        is_init_step(
            InitState::CheckingToken { content },
            InitEvent::TokenChecked(checked),
            next,
            action,
        ),
        checked != Ok::<bool, String>(true) || stored_token(content@, 0) is None || stored_token(
            content@,
            1,
        ) is None,
    ensures
        next is RequestingDeviceCode,
        action is RequestDeviceCode,
{
}

/// At the login prompt, the answer counts only by its upper-case form: any
/// line whose upper-case form is `Y` (such as `Y` or `y`) goes on to ask for
/// the tokens of the device code, and any whose upper-case form is `N`
/// cancels.
pub proof fn lemma_login_answer_by_uppercase(
    device_code: String,
    line: String,
    next: InitState,
    action: InitAction,
)
    requires
        is_init_step(
            InitState::AwaitingLogin { device_code },
            InitEvent::Answer(Ok(line)),
            next,
            action,
        ),
    ensures
        uppercase(line@) == seq!['Y'] ==> next is RequestingAccessCode,
        uppercase(line@) == seq!['Y'] ==> (action matches InitAction::RequestAccessCode {
            device_code: d,
        } && d@ == device_code@),
        uppercase(line@) == seq!['N'] ==> next is Finished && action is Cancel,
{
    assert(seq!['N'][0] != seq!['Y'][0]);
}

} // verus!
