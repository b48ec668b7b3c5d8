//! Starting programs as services of the user's service manager.

use vstd::prelude::*;

use crate::number::write_number;
use crate::text::chars_of;

verus! {

/// How much of an app id a unit name may carry.
///
/// Unit names are capped at 255 bytes and the rest of what is built below is
/// well under a hundred, so this only ever truncates an id far longer than any
/// real one.
pub const MAX_ID_LENGTH: usize = 128;

/// Whether a unit name can hold a character.
pub open spec fn allowed(c: char) -> bool {
    ||| '0' <= c <= '9'
    ||| 'a' <= c <= 'z'
    ||| 'A' <= c <= 'Z'
    ||| c == '_'
    ||| c == '.'
}

/// An app id as a unit name carries it: cut short, and with `_` for each character
/// that a unit name cannot hold.
pub open spec fn unit_id(app_id: Seq<char>) -> Seq<char> {
    let kept = if app_id.len() > MAX_ID_LENGTH {
        app_id.take(MAX_ID_LENGTH as int)
    } else {
        app_id
    };
    kept.map_values(
        |c: char|
            if allowed(c) {
                c
            } else {
                '_'
            },
    )
}

/// What comes after the app id in a unit name.
pub open spec fn unit_suffix(now: int, launch: int) -> Seq<char> {
    seq!['-'] + crate::number::written(now, 16) + seq!['-'] + crate::number::written(launch, 16)
        + ".service"@
}

/// The unit name for one launch of an app.
pub open spec fn unit_name_of(app_id: Seq<char>, now: int, launch: int) -> Seq<char> {
    "app-launch-"@ + unit_id(app_id) + unit_suffix(now, launch)
}

/// The unit name for one launch of `app_id`, which comes `now` nanoseconds after
/// the epoch and after `launch` others.
///
/// `app-` is the prefix systemd reserves for units running something on the
/// user's behalf, and the launcher's own name after it says who started this
/// one. Two things share the suffix: a counter, so launching an app that is
/// already running does not collide with it, and the time, so that neither does
/// launching one whose still-running copy came from an earlier launcher - which
/// is the whole point of starting apps this way.
pub fn unit_name(app_id: &str, now: u128, launch: u64) -> (r: String)
    ensures
        r@ == unit_name_of(app_id@, now as int, launch as int),
{
    // A desktop file's id is a file name and can hold anything; a unit name takes
    // a restricted alphabet. Nothing here has to be read back, so a character
    // that is not allowed is simply stood in for.
    let chars = chars_of(app_id);
    let count: usize = if chars.len() > MAX_ID_LENGTH {
        MAX_ID_LENGTH
    } else {
        chars.len()
    };
    let mut out = "app-launch-".to_owned();
    for i in 0..count
        invariant
            chars@ == app_id@,
            count == unit_id(app_id@).len(),
            count <= chars@.len(),
            out@ == "app-launch-"@ + unit_id(app_id@).take(i as int),
    {
        let c = chars[i];
        if ('0' <= c && c <= '9') || ('a' <= c && c <= 'z') || ('A' <= c && c <= 'Z') || c == '_'
            || c == '.' {
            out.push(c);
        } else {
            out.push('_');
        }
        assert(unit_id(app_id@).take(i + 1) =~= unit_id(app_id@).take(i as int).push(
            unit_id(app_id@)[i as int],
        ));
        assert(out@ =~= "app-launch-"@ + unit_id(app_id@).take(i + 1));
    }
    assert(unit_id(app_id@).take(count as int) =~= unit_id(app_id@));
    out.push('-');
    out.append(&write_number(now, 16));
    out.push('-');
    out.append(&write_number(launch as u128, 16));
    out.append(".service");
    assert(out@ =~= unit_name_of(app_id@, now as int, launch as int));
    out
}

/// How many numbers can be written with `k` digits of base sixteen.
spec fn hex_bound(k: nat) -> int
    decreases k,
{
    if k == 0 {
        1
    } else {
        16 * hex_bound((k - 1) as nat)
    }
}

proof fn lemma_written_length(n: int, k: nat)
    requires
        0 <= n < hex_bound(k),
        k > 0,
    ensures
        1 <= crate::number::written(n, 16).len() <= k,
    decreases k,
{
    if n >= 16 {
        reveal_with_fuel(hex_bound, 2);
        lemma_written_length(n / 16, (k - 1) as nat);
    }
}

proof fn lemma_written_alphabet(n: int, i: int)
    requires
        0 <= n,
        0 <= i < crate::number::written(n, 16).len(),
    ensures
        allowed(crate::number::written(n, 16)[i]),
        crate::number::written(n, 16)[i] != '-',
        crate::number::written(n, 16)[i] as u32 <= 0x7f,
    decreases n,
{
    if n >= 16 {
        if i < crate::number::written(n / 16, 16).len() {
            lemma_written_alphabet(n / 16, i);
        }
    }
}

/// Whether a character may stand in a unit name that needs no escaping.
pub open spec fn plain_in_unit(c: char) -> bool {
    ('a' <= c && c <= 'z') || ('A' <= c && c <= 'Z') || ('0' <= c && c <= '9') || c == '_' || c
        == '.' || c == '-'
}

/// A unit name is good for systemd as it is, whatever the app id: it takes fewer than 256
/// bytes, and holds only ASCII letters and digits, `_`, `.` and `-`.
pub proof fn law_unit_names_fit(app_id: Seq<char>, now: u128, launch: u64)
    ensures
        unit_name_of(app_id, now as int, launch as int).len() < 256,
        forall|i: int|
            0 <= i < unit_name_of(app_id, now as int, launch as int).len() ==> (
            #[trigger] unit_name_of(app_id, now as int, launch as int)[i]) as u32 <= 0x7f,
        forall|i: int|
            0 <= i < unit_name_of(app_id, now as int, launch as int).len() ==> plain_in_unit(
                #[trigger] unit_name_of(app_id, now as int, launch as int)[i],
            ),
{
    reveal_strlit("app-launch-");
    reveal_strlit(".service");
    assert(hex_bound(32) == 0x1_0000_0000_0000_0000_0000_0000_0000_0000int) by {
        reveal_with_fuel(hex_bound, 33);
    }
    lemma_written_length(now as int, 32);
    lemma_written_length(launch as int, 32);
    let name = unit_name_of(app_id, now as int, launch as int);
    let a = crate::number::written(now as int, 16);
    let b = crate::number::written(launch as int, 16);
    let id = unit_id(app_id);
    assert forall|i: int| 0 <= i < name.len() implies (#[trigger] name[i]) as u32 <= 0x7f
        && plain_in_unit(name[i]) by {
        if i < 11 {
        } else if i < 11 + id.len() {
            assert(name[i] == id[i - 11]);
        } else {
            let j = i - 11 - id.len();
            if 1 <= j < 1 + a.len() {
                lemma_written_alphabet(now as int, j - 1);
            } else if 2 + a.len() <= j < 2 + a.len() + b.len() {
                lemma_written_alphabet(launch as int, j - 2 - a.len());
            }
        }
    }
}

proof fn lemma_unit_id_alphabet(app_id: Seq<char>, i: int)
    requires
        0 <= i < unit_id(app_id).len(),
    ensures
        unit_id(app_id)[i] != '-',
{
}

/// The unit names of two launches, of one app or of two, differ unless both the time
/// and the counter are the same.
pub proof fn law_unit_names_differ(
    app_id: Seq<char>,
    other_id: Seq<char>,
    now: int,
    launch: int,
    later: int,
    other: int,
)
    requires
        0 <= now,
        0 <= launch,
        0 <= later,
        0 <= other,
        unit_name_of(app_id, now, launch) == unit_name_of(other_id, later, other),
    ensures
        now == later && launch == other,
{
    let n = unit_id(app_id).len() as int;
    let m = unit_id(other_id).len() as int;
    let s = unit_suffix(now, launch);
    let t = unit_suffix(later, other);
    let a = crate::number::written(now, 16);
    let b = crate::number::written(later, 16);
    let c = crate::number::written(launch, 16);
    let d = crate::number::written(other, 16);
    reveal_strlit("app-launch-");
    reveal_strlit(".service");
    let whole = unit_name_of(app_id, now, launch);
    let same = unit_name_of(other_id, later, other);
    assert(s[0] == '-' && t[0] == '-');
    assert(whole[11 + n] == s[0] && same[11 + m] == t[0]);
    // No id holds the dash that ends it, so both ids end at the same place.
    if n < m {
        assert(same[11 + n] == unit_id(other_id)[n]);
        lemma_unit_id_alphabet(other_id, n);
    } else if m < n {
        assert(whole[11 + m] == unit_id(app_id)[m]);
        lemma_unit_id_alphabet(app_id, m);
    }
    assert(whole.skip(11 + n) =~= s);
    assert(same.skip(11 + n) =~= t);
    assert(s == t);
    if a.len() < b.len() {
        assert(s[1 + a.len() as int] == '-');
        assert(t[1 + a.len() as int] == b[a.len() as int]);
        lemma_written_alphabet(later, a.len() as int);
    } else if b.len() < a.len() {
        assert(t[1 + b.len() as int] == '-');
        assert(s[1 + b.len() as int] == a[b.len() as int]);
        lemma_written_alphabet(now, b.len() as int);
    } else {
        assert(c.len() == d.len());
        assert forall|i: int| 0 <= i < a.len() implies a[i] == b[i] by {
            assert(s[i + 1] == t[i + 1]);
        }
        assert(a =~= b);
        assert forall|i: int| 0 <= i < c.len() implies c[i] == d[i] by {
            assert(s[i + 2 + a.len()] == t[i + 2 + a.len()]);
        }
        assert(c =~= d);
        crate::number::law_written_tells_apart(now, later, 16);
        crate::number::law_written_tells_apart(launch, other, 16);
    }
}

/// Counts launches, so that no two share a unit name.
#[derive(Debug)]
pub struct LaunchCounter {
    next: u64,
}

impl LaunchCounter {
    /// How many launches there were so far.
    pub closed spec fn count(&self) -> u64 {
        self.next
    }

    pub fn new() -> (r: Self)
        ensures
            r.count() == 0,
    {
        LaunchCounter { next: 0 }
    }

    /// Names the unit for the next launch of an app; see [`unit_name`].
    pub fn name_next(&mut self, app_id: &str, now: u128) -> (r: String)
        ensures
            r@ == unit_name_of(app_id@, now as int, old(self).count() as int),
            final(self).count() == (if old(self).count() == u64::MAX {
                0u64
            } else {
                (old(self).count() + 1) as u64
            }),
    {
        let launch: u64 = self.next;
        self.next = self.next.wrapping_add(1);
        unit_name(app_id, now, launch)
    }
}

/// The one command a unit runs: what to execute, the `argv` to execute it with,
/// and whether a failure to start it may be ignored.
#[derive(Debug)]
pub struct ExecStart {
    pub program: String,
    pub arguments: Vec<String>,
    pub ignore_failure: bool,
}

/// `zvariant::Value::from` makes a value of a list of commands, and
/// `zvariant::Value::value_signature` tells its type: a list of a text, a list of
/// texts and a truth value each.
#[verifier::external_body]
fn command_signature(program: &String, arguments: &Vec<String>, ignore_failure: bool) -> (r: String)
    ensures
        r@ == "a(sasb)"@,
{
    let command = (program.clone(), arguments.clone(), ignore_failure);
    zvariant::Value::from(vec![command]).value_signature().to_string()
}

impl ExecStart {
    /// The type that the command has on the bus.
    pub fn signature(&self) -> (r: String)
        ensures
            r@ == "a(sasb)"@,
    {
        command_signature(&self.program, &self.arguments, self.ignore_failure)
    }
}

/// The one command the unit runs, as the `a(sasb)` systemd expects. A failure to
/// start it may not be ignored, since it is the only thing the unit is for.
pub fn exec_start(program: &str, arguments: &Vec<String>) -> (r: ExecStart)
    ensures
        r.program@ == program@,
        crate::text::views(r.arguments@) == crate::text::views(arguments@),
        !r.ignore_failure,
{
    ExecStart {
        program: program.to_owned(),
        arguments: crate::names::copy_names(arguments),
        ignore_failure: false,
    }
}

/// A property of a unit.
#[derive(Debug)]
pub enum Property {
    Text { name: String, text: String },
    Exec { name: String, command: ExecStart },
}

/// A [`Property`] as a value.
pub enum PropertyView {
    Text { name: Seq<char>, text: Seq<char> },
    Exec {
        name: Seq<char>,
        program: Seq<char>,
        arguments: Seq<Seq<char>>,
        ignore_failure: bool,
    },
}

impl View for Property {
    type V = PropertyView;

    open spec fn view(&self) -> PropertyView {
        match self {
            Property::Text { name, text } => PropertyView::Text { name: name@, text: text@ },
            Property::Exec { name, command } => PropertyView::Exec {
                name: name@,
                program: command.program@,
                arguments: crate::text::views(command.arguments@),
                ignore_failure: command.ignore_failure,
            },
        }
    }
}

/// What the manager is asked for: a unit, how its job is queued, and the unit's
/// properties.
#[derive(Debug)]
pub struct TransientUnit {
    pub name: String,
    pub mode: String,
    pub properties: Vec<Property>,
}

/// Properties as values.
pub open spec fn property_views(properties: Seq<Property>) -> Seq<PropertyView> {
    properties.map_values(|p: Property| p@)
}

/// The properties of the unit that runs an app.
pub open spec fn unit_properties(
    app_id: Seq<char>,
    program: Seq<char>,
    arguments: Seq<Seq<char>>,
    directory: Option<Seq<char>>,
) -> Seq<PropertyView> {
    let always = seq![
        PropertyView::Text { name: "Description"@, text: "launch: "@ + app_id },
        PropertyView::Text { name: "Slice"@, text: "app.slice"@ },
        PropertyView::Exec { name: "ExecStart"@, program, arguments, ignore_failure: false },
        PropertyView::Text { name: "CollectMode"@, text: "inactive-or-failed"@ },
        PropertyView::Text { name: "ExitType"@, text: "cgroup"@ },
    ];
    match directory {
        Some(directory) => if directory.len() > 0 {
            always.push(PropertyView::Text { name: "WorkingDirectory"@, text: directory })
        } else {
            always
        },
        None => always,
    }
}

fn text_property(name: &str, text: String) -> (r: Property)
    ensures
        r@ == (PropertyView::Text { name: name@, text: text@ }),
{
    Property::Text { name: name.to_owned(), text }
}

/// Describes a program as a transient user service.
///
/// The point of going through the manager rather than forking the program here
/// is that it then belongs to the manager instead of to us: it lands in its own
/// cgroup under `app.slice` rather than inside the launcher's unit, so stopping
/// or replacing the launcher no longer takes down every app started from it,
/// and it is executed with the session environment the manager holds rather
/// than whatever the launcher was started with.
///
/// `program` has to be the absolute path to execute, since systemd resolves
/// nothing itself. `arguments` is the whole `argv`, its first entry included,
/// which is how the program name can stay as the entry wrote it while the path
/// it resolved to is what gets executed.
pub fn start_app(
    unit: String,
    app_id: &str,
    program: &str,
    arguments: &Vec<String>,
    working_directory: Option<&str>,
) -> (r: TransientUnit)
    ensures
        r.name@ == unit@,
        r.mode@ == "fail"@,
        property_views(r.properties@) == unit_properties(
            app_id@,
            program@,
            crate::text::views(arguments@),
            match working_directory {
                Some(directory) => Some(directory@),
                None => None,
            },
        ),
{
    let mut description = "launch: ".to_owned();
    description.append(app_id);
    let mut properties: Vec<Property> = Vec::new();
    properties.push(text_property("Description", description));
    // Where the manager expects units that run something on the user's behalf,
    // as opposed to the session's own services.
    properties.push(text_property("Slice", "app.slice".to_owned()));
    properties.push(
        Property::Exec { name: "ExecStart".to_owned(), command: exec_start(program, arguments) },
    );
    // A transient unit is not forgotten on its own once it has run: without
    // this, every app ever started would stay listed, and a second launch of
    // one would collide with the leftover of the first.
    properties.push(text_property("CollectMode", "inactive-or-failed".to_owned()));
    // Plenty of apps fork and let the process that was executed exit. Judging
    // the unit by its cgroup instead of by that one process keeps systemd from
    // treating such an app as finished and killing what it left behind.
    properties.push(text_property("ExitType", "cgroup".to_owned()));
    if let Some(directory) = working_directory {
        if !directory.is_empty() {
            properties.push(text_property("WorkingDirectory", directory.to_owned()));
        }
    }
    assert(property_views(properties@) =~= unit_properties(
        app_id@,
        program@,
        crate::text::views(arguments@),
        match working_directory {
            Some(directory) => Some(directory@),
            None => None,
        },
    ));
    TransientUnit { name: unit, mode: "fail".to_owned(), properties }
}

/// An app id with its dots turned into slashes, as an object path.
pub open spec fn object_path_of(app_id: Seq<char>) -> Seq<char> {
    seq!['/'] + app_id.map_values(
        |c: char|
            if c == '.' {
                '/'
            } else {
                c
            },
    )
}

/// The object that an app answers at when it is asked to activate itself.
pub fn object_path(app_id: &str) -> (r: String)
    ensures
        r@ == object_path_of(app_id@),
{
    let chars = chars_of(app_id);
    let mut out = String::new();
    out.push('/');
    assert(out@ =~= object_path_of(app_id@).take(1));
    for i in 0..chars.len()
        invariant
            chars@ == app_id@,
            out@ == object_path_of(app_id@).take(i + 1),
    {
        if chars[i] == '.' {
            out.push('/');
        } else {
            out.push(chars[i]);
        }
        assert(out@ =~= object_path_of(app_id@).take(i + 2));
    }
    assert(object_path_of(app_id@).take(chars@.len() as int + 1) =~= object_path_of(app_id@));
    out
}

/// The name of an application is kept in the name of its unit up to its first hundred and
/// twenty-eight characters, each as it is where a unit's name may hold it and as an
/// underscore where it may not.
pub proof fn law_unit_names_keep_what_they_may(app_id: Seq<char>, i: int)
    requires
        0 <= i < unit_id(app_id).len(),
    ensures
        app_id.len() <= 128 ==> unit_id(app_id).len() == app_id.len(),
        app_id.len() > 128 ==> unit_id(app_id).len() == 128,
        ({
            let c = app_id[i];
            let n = c as u32;
            let kept = (48 <= n && n <= 57) || (65 <= n && n <= 90) || (97 <= n && n <= 122)
                || n == 95 || n == 46;
            &&& kept ==> unit_id(app_id)[i] == c
            &&& !kept ==> unit_id(app_id)[i] == '_'
        }),
{
    lemma_kept_characters(app_id[i]);
}

proof fn lemma_kept_characters(c: char)
    ensures
        ({
            let n = c as u32;
            allowed(c) <==> (48 <= n && n <= 57) || (65 <= n && n <= 90) || (97 <= n && n <= 122)
                || n == 95 || n == 46
        }),
{
}

/// A unit's name begins as every unit of the program does, goes on with the name of the
/// application and ends with the launch.
pub proof fn law_unit_names_begin_alike(app_id: Seq<char>, now: int, launch: int)
    ensures
        ("app-launch-"@ + unit_id(app_id)).is_prefix_of(unit_name_of(app_id, now, launch)),
        ".service"@.is_suffix_of(unit_name_of(app_id, now, launch)),
{
    let name = unit_name_of(app_id, now, launch);
    let head = "app-launch-"@ + unit_id(app_id);
    assert(name.take(head.len() as int) =~= head);
    let tail = ".service"@;
    assert(name.skip(name.len() - tail.len()) =~= tail);
}

/// A launched application runs the program it was asked to run with its arguments, under the
/// slice of applications, for as long as anything of it runs, and is cleared away after. It
/// starts in the directory it was given, where it was given one.
pub proof fn law_units_run_what_was_asked(
    app_id: Seq<char>,
    program: Seq<char>,
    arguments: Seq<Seq<char>>,
    directory: Option<Seq<char>>,
    property: PropertyView,
)
    ensures
        unit_properties(app_id, program, arguments, directory).contains(property) <==> {
            ||| property == (PropertyView::Text {
                name: "Description"@,
                text: "launch: "@ + app_id,
            })
            ||| property == (PropertyView::Text { name: "Slice"@, text: "app.slice"@ })
            ||| property == (PropertyView::Exec {
                name: "ExecStart"@,
                program,
                arguments,
                ignore_failure: false,
            })
            ||| property == (PropertyView::Text {
                name: "CollectMode"@,
                text: "inactive-or-failed"@,
            })
            ||| property == (PropertyView::Text { name: "ExitType"@, text: "cgroup"@ })
            ||| directory is Some && directory->0.len() > 0 && property == (PropertyView::Text {
                name: "WorkingDirectory"@,
                text: directory->0,
            })
        },
{
    let all = unit_properties(app_id, program, arguments, directory);
    assert(all[0] == (PropertyView::Text { name: "Description"@, text: "launch: "@ + app_id }));
    assert(all[1] == (PropertyView::Text { name: "Slice"@, text: "app.slice"@ }));
    assert(all[2] == (PropertyView::Exec {
        name: "ExecStart"@,
        program,
        arguments,
        ignore_failure: false,
    }));
    assert(all[3] == (PropertyView::Text {
        name: "CollectMode"@,
        text: "inactive-or-failed"@,
    }));
    assert(all[4] == (PropertyView::Text { name: "ExitType"@, text: "cgroup"@ }));
    if directory is Some && directory->0.len() > 0 {
        assert(all[5] == (PropertyView::Text {
            name: "WorkingDirectory"@,
            text: directory->0,
        }));
    }
}

/// The path of an application is its name with a slash before it and slashes for its dots,
/// and with every other character in its place.
pub proof fn law_object_paths_turn_dots_into_slashes(app_id: Seq<char>, i: int)
    requires
        0 <= i < app_id.len(),
    ensures
        object_path_of(app_id).len() == app_id.len() + 1,
        object_path_of(app_id)[0] == '/',
        app_id[i] == '.' ==> object_path_of(app_id)[i + 1] == '/',
        app_id[i] != '.' ==> object_path_of(app_id)[i + 1] == app_id[i],
{
}

} // verus!
