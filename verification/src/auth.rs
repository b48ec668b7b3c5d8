//! What the lock screen and the login screen have in common: the user they show
//! and the state of the fingerprint reader.

use vstd::prelude::*;

use crate::cards::{first_char, uppercase};
use crate::text::{chars_of, find_from, string_between, trim};

verus! {

/// What the fingerprint reader is up to, so the password field can show it.
#[derive(Clone, Copy, Debug, PartialEq, Eq, Structural)]
pub enum FingerprintState {
    /// There is no reader to use, or it gave up.
    Off,
    /// Looking the reader up and claiming it.
    Starting,
    /// Armed, with nothing on the sensor.
    Waiting,
    /// A finger is on the sensor and being read.
    Reading,
}

impl FingerprintState {
    /// The state once the sensor says whether a finger is on it. This moves only
    /// between waiting and reading: a reader that has stopped, or that has not
    /// finished starting, is not brought back to life by a stray change.
    pub open spec fn sensed(self, present: bool) -> FingerprintState {
        match (self, present) {
            (FingerprintState::Waiting, true) => FingerprintState::Reading,
            (FingerprintState::Reading, false) => FingerprintState::Waiting,
            _ => self,
        }
    }

    /// Follows the sensor; see [`Self::sensed`].
    pub fn sense(self, present: bool) -> (r: FingerprintState)
        ensures
            r == self.sensed(present),
    {
        match (self, present) {
            (FingerprintState::Waiting, true) => FingerprintState::Reading,
            (FingerprintState::Reading, false) => FingerprintState::Waiting,
            _ => self,
        }
    }

    /// Whatever the sensor reports, a reader that is not listening stays as it is,
    /// and one that is listening goes on listening.
    pub proof fn law_sensing_never_revives(self, present: bool)
        ensures
            self is Off ==> self.sensed(present) is Off,
            self is Starting ==> self.sensed(present) is Starting,
            self is Waiting || self is Reading ==> self.sensed(present) is Waiting || self.sensed(
                present,
            ) is Reading,
    {
    }

    /// What the field shows for the reader: nothing until it is armed, a spinner
    /// only while a finger is actually on the sensor.
    pub fn indicator(self) -> (r: Option<bool>)
        ensures
            r == (match self {
                FingerprintState::Off | FingerprintState::Starting => None,
                FingerprintState::Waiting => Some(false),
                FingerprintState::Reading => Some(true),
            }),
    {
        match self {
            FingerprintState::Off | FingerprintState::Starting => None,
            FingerprintState::Waiting => Some(false),
            FingerprintState::Reading => Some(true),
        }
    }
}

/// Which of two workers is being heard from.
#[derive(Clone, Copy, Debug, PartialEq, Eq, Structural)]
pub enum AuthSource {
    Password,
    Fingerprint,
}

/// Why an attempt came to nothing.
#[derive(Debug)]
pub enum AuthFailure {
    /// The password or the finger was turned down.
    Rejected,
    /// Something else went wrong.
    Error { message: String },
}

/// An [`AuthFailure`] as a value.
pub enum AuthFailureView {
    Rejected,
    Error { message: Seq<char> },
}

impl View for AuthFailure {
    type V = AuthFailureView;

    open spec fn view(&self) -> AuthFailureView {
        match self {
            AuthFailure::Rejected => AuthFailureView::Rejected,
            AuthFailure::Error { message } => AuthFailureView::Error { message: message@ },
        }
    }
}

/// A user who can be authenticated, as the screen shows them.
#[derive(Debug)]
pub struct AuthUser {
    /// Login name; this is what the password is verified for.
    pub name: String,
    pub display_name: String,
    /// First letter of the display name, for when there is no avatar to show.
    pub initial: String,
    /// The file of the user's picture.
    pub avatar: Option<String>,
}

/// An [`AuthUser`] as a value.
pub struct AuthUserView {
    pub name: Seq<char>,
    pub display_name: Seq<char>,
    pub initial: Seq<char>,
    pub avatar: Option<Seq<char>>,
}

impl View for AuthUser {
    type V = AuthUserView;

    open spec fn view(&self) -> AuthUserView {
        AuthUserView {
            name: self.name@,
            display_name: self.display_name@,
            initial: self.initial@,
            avatar: crate::text::opt_view(self.avatar),
        }
    }
}

/// Users as values.
pub open spec fn user_views(users: Seq<AuthUser>) -> Seq<AuthUserView> {
    users.map_values(|u: AuthUser| u@)
}

/// The name to show for a user: the full name, which the account's comment field
/// holds in its first comma-separated part, or the login name if that is empty.
pub open spec fn shown_name(gecos: Option<Seq<char>>, name: Seq<char>) -> Seq<char> {
    match gecos {
        Some(gecos) => {
            let full = crate::text::trimmed(gecos.take(crate::text::index_from(gecos, 0, ',')));
            if full.len() > 0 {
                full
            } else {
                name
            }
        },
        None => name,
    }
}

/// The initial of a name: its first character in upper case.
pub open spec fn initial_of(name: Seq<char>) -> Seq<char> {
    if name.len() > 0 {
        crate::cards::uppercase_of(name[0])
    } else {
        Seq::empty()
    }
}

/// The name to show for a user; see [`shown_name`].
pub fn display_name(gecos: Option<String>, name: &str) -> (r: String)
    ensures
        r@ == shown_name(crate::text::opt_view(gecos), name@),
{
    match gecos {
        Some(gecos) => {
            let v = chars_of(&gecos);
            let comma = find_from(&v, 0, ',');
            let part = string_between(&v, 0, comma);
            assert(part@ =~= gecos@.take(comma as int));
            let full = trim(&part);
            if full.as_str().is_empty() {
                name.to_owned()
            } else {
                full
            }
        },
        None => name.to_owned(),
    }
}

impl AuthUser {
    /// A user of the system. `gecos` is the account's comment field, where it can
    /// be read.
    pub fn new(name: String, gecos: Option<String>, avatar: Option<String>) -> (r: Self)
        ensures
            r@ == (AuthUserView {
                name: name@,
                display_name: shown_name(crate::text::opt_view(gecos), name@),
                initial: initial_of(shown_name(crate::text::opt_view(gecos), name@)),
                avatar: crate::text::opt_view(avatar),
            }),
    {
        let display_name = display_name(gecos, &name);
        let initial = match first_char(&display_name) {
            Some(first) => uppercase(first),
            None => String::new(),
        };
        AuthUser { name, display_name, initial, avatar }
    }
}

/// Where a user's picture may be.
#[derive(Debug)]
pub enum AvatarPlace {
    /// Under this name in the program's configuration directory.
    Config(String),
    /// Under this name in the user's home directory.
    Home(String),
    /// Under the user's name among the pictures that the system keeps.
    Accounts(String),
}

/// An [`AvatarPlace`] as a value.
pub enum AvatarPlaceView {
    Config(Seq<char>),
    Home(Seq<char>),
    Accounts(Seq<char>),
}

impl View for AvatarPlace {
    type V = AvatarPlaceView;

    open spec fn view(&self) -> AvatarPlaceView {
        match self {
            AvatarPlace::Config(name) => AvatarPlaceView::Config(name@),
            AvatarPlace::Home(name) => AvatarPlaceView::Home(name@),
            AvatarPlace::Accounts(name) => AvatarPlaceView::Accounts(name@),
        }
    }
}

/// The places to look for a user's picture, in order: one dropped into the
/// configuration directory first, then the places desktops agree on. A directory
/// that is not known is passed over.
pub open spec fn avatar_places(config: bool, home: bool, username: Seq<char>) -> Seq<
    AvatarPlaceView,
> {
    let own = if config {
        seq![
            AvatarPlaceView::Config("profile.png"@),
            AvatarPlaceView::Config("profile.jpg"@),
            AvatarPlaceView::Config("profile.webp"@),
        ]
    } else {
        Seq::empty()
    };
    let face = if home {
        seq![AvatarPlaceView::Home(".face"@), AvatarPlaceView::Home(".face.icon"@)]
    } else {
        Seq::empty()
    };
    own + face + seq![AvatarPlaceView::Accounts(username)]
}

/// Lists the places to look for a user's picture; see [`avatar_places`].
pub fn avatar_candidates(config: bool, home: bool, username: &str) -> (r: Vec<AvatarPlace>)
    ensures
        r@.map_values(|p: AvatarPlace| p@) == avatar_places(config, home, username@),
{
    let mut out: Vec<AvatarPlace> = Vec::new();
    if config {
        out.push(AvatarPlace::Config("profile.png".to_owned()));
        out.push(AvatarPlace::Config("profile.jpg".to_owned()));
        out.push(AvatarPlace::Config("profile.webp".to_owned()));
    }
    if home {
        out.push(AvatarPlace::Home(".face".to_owned()));
        out.push(AvatarPlace::Home(".face.icon".to_owned()));
    }
    out.push(AvatarPlace::Accounts(username.to_owned()));
    assert(out@.map_values(|p: AvatarPlace| p@) =~= avatar_places(config, home, username@));
    out
}

/// A finger on a waiting reader is being read, and one lifted while it is read leaves the
/// reader waiting.
pub proof fn law_fingers_are_sensed(state: FingerprintState, present: bool)
    ensures
        state is Waiting || state is Reading ==> (state.sensed(present) is Reading <==> present),
        state is Waiting || state is Reading ==> (state.sensed(present) is Waiting <==> !present),
        state is Off || state is Starting ==> state.sensed(present) == state,
{
}

/// The full name is what stands before the first comma, without the white space around it.
pub proof fn law_full_names_end_at_the_comma(
    before: Seq<char>,
    full: Seq<char>,
    after: Seq<char>,
    rest: Seq<char>,
    name: Seq<char>,
)
    requires
        crate::text::all_white(before),
        crate::text::all_white(after),
        full.len() > 0,
        !crate::text::white_space(full[0]),
        !crate::text::white_space(full.last()),
        !full.contains(','),
    ensures
        shown_name(Some(before + full + after + seq![','] + rest), name) == full,
        shown_name(Some(before + full + after), name) == full,
{
    let head = before + full + after;
    assert forall|i: int| 0 <= i < head.len() implies head[i] != ',' by {
        if before.len() <= i < before.len() + full.len() {
            assert(full.contains(full[i - before.len()]));
        } else if i < before.len() {
            assert(crate::text::white_space(before[i]));
        } else {
            assert(crate::text::white_space(after[i - before.len() - full.len()]));
        }
    }
    crate::text::law_first_place_is_found(head, ',', rest);
    let whole = head + seq![','] + rest;
    assert(whole.take(head.len() as int) =~= head);
    assert(head.take(head.len() as int) =~= head);
    crate::text::law_trimming_takes_only_the_ends(before, full, after);
}

/// An account without a full name goes by its own.
pub proof fn law_nameless_accounts_show_their_own(
    blank: Seq<char>,
    rest: Seq<char>,
    name: Seq<char>,
)
    requires
        crate::text::all_white(blank),
    ensures
        shown_name(None, name) == name,
        shown_name(Some(blank), name) == name,
        shown_name(Some(blank + seq![','] + rest), name) == name,
{
    assert forall|i: int| 0 <= i < blank.len() implies blank[i] != ',' by {
        assert(crate::text::white_space(blank[i]));
    }
    crate::text::law_first_place_is_found(blank, ',', rest);
    let whole = blank + seq![','] + rest;
    assert(whole.take(blank.len() as int) =~= blank);
    assert(blank.take(blank.len() as int) =~= blank);
    crate::text::law_white_space_trims_to_nothing(blank);
}

/// The initial is the first character of the name in capitals, whatever follows it.
pub proof fn law_initials_come_first(c: char, rest: Seq<char>)
    ensures
        initial_of(seq![c] + rest) == crate::cards::uppercase_of(c),
        initial_of(Seq::<char>::empty()) == Seq::<char>::empty(),
{
}

/// A picture is looked for in the program's own directory first, then in the home directory,
/// and last where the system keeps pictures of accounts; a directory that is not known is
/// left out, and the system's is always looked in.
pub proof fn law_pictures_are_looked_for(config: bool, home: bool, username: Seq<char>, i: int)
    requires
        0 <= i < avatar_places(config, home, username).len(),
    ensures
        ({
            let places = avatar_places(config, home, username);
            let own: int = if config { 3 } else { 0 };
            let face: int = if home { 2 } else { 0 };
            &&& places.len() == own + face + 1
            &&& places[i] is Config <==> i < own
            &&& places[i] is Home <==> own <= i < own + face
            &&& places.last() == AvatarPlaceView::Accounts(username)
            &&& config ==> places[0] == AvatarPlaceView::Config("profile.png"@) && places[1]
                == AvatarPlaceView::Config("profile.jpg"@) && places[2] == AvatarPlaceView::Config(
                "profile.webp"@,
            )
            &&& home ==> places[own] == AvatarPlaceView::Home(".face"@) && places[own + 1]
                == AvatarPlaceView::Home(".face.icon"@)
        }),
{
}

} // verus!
