//! App-name → [`MeetingAppKind`] lookup: a curated default table plus
//! user overrides that take precedence over it.

use vstd::prelude::*;

use crate::app_kind::MeetingAppKind;
use crate::text::str_eq;

verus! {

/// The curated default table, in source order.
pub open spec fn default_entries_spec() -> Seq<(Seq<char>, MeetingAppKind)> {
    seq![
        ("zoom.us"@, MeetingAppKind::Meeting),
        ("us.zoom.xos"@, MeetingAppKind::Meeting),
        ("Zoom"@, MeetingAppKind::Meeting),
        ("Zoom Meetings"@, MeetingAppKind::Meeting),
        ("zoom"@, MeetingAppKind::Meeting),
        ("Zoom.exe"@, MeetingAppKind::Meeting),
        ("zoom.exe"@, MeetingAppKind::Meeting),
        ("Microsoft Teams"@, MeetingAppKind::Meeting),
        ("com.microsoft.teams2"@, MeetingAppKind::Meeting),
        ("Microsoft Teams (work or school)"@, MeetingAppKind::Meeting),
        ("ms-teams"@, MeetingAppKind::Meeting),
        ("ms-teams.exe"@, MeetingAppKind::Meeting),
        ("Teams.exe"@, MeetingAppKind::Meeting),
        ("teams-for-linux"@, MeetingAppKind::Meeting),
        ("Google Meet"@, MeetingAppKind::Meeting),
        ("Meet"@, MeetingAppKind::Meeting),
        ("Discord"@, MeetingAppKind::Meeting),
        ("com.hnc.Discord"@, MeetingAppKind::Meeting),
        ("discord"@, MeetingAppKind::Meeting),
        ("Discord.exe"@, MeetingAppKind::Meeting),
        ("Slack"@, MeetingAppKind::Meeting),
        ("com.tinyspeck.slackmacgap"@, MeetingAppKind::Meeting),
        ("slack"@, MeetingAppKind::Meeting),
        ("slack.exe"@, MeetingAppKind::Meeting),
        ("Slack.exe"@, MeetingAppKind::Meeting),
        ("Webex"@, MeetingAppKind::Meeting),
        ("Cisco Webex Meetings"@, MeetingAppKind::Meeting),
        ("com.cisco.webexmeetingsapp"@, MeetingAppKind::Meeting),
        ("webex"@, MeetingAppKind::Meeting),
        ("Webex.exe"@, MeetingAppKind::Meeting),
        ("CiscoCollabHost.exe"@, MeetingAppKind::Meeting),
        ("Skype"@, MeetingAppKind::Meeting),
        ("skype"@, MeetingAppKind::Meeting),
        ("Skype.exe"@, MeetingAppKind::Meeting),
        ("GoToMeeting"@, MeetingAppKind::Meeting),
        ("GoToMeeting.exe"@, MeetingAppKind::Meeting),
        ("GoTo"@, MeetingAppKind::Meeting),
        ("BlueJeans"@, MeetingAppKind::Meeting),
        ("BlueJeans.exe"@, MeetingAppKind::Meeting),
        ("Loom"@, MeetingAppKind::Meeting),
        ("com.loom.desktop"@, MeetingAppKind::Meeting),
        ("Loom.exe"@, MeetingAppKind::Meeting),
        ("FaceTime"@, MeetingAppKind::Meeting),
        ("com.apple.FaceTime"@, MeetingAppKind::Meeting),
        ("Tuple"@, MeetingAppKind::Meeting),
        ("app.tuple.app"@, MeetingAppKind::Meeting),
        ("Around"@, MeetingAppKind::Meeting),
        ("co.around.Around"@, MeetingAppKind::Meeting),
        ("com.microsoft.teams"@, MeetingAppKind::Meeting),
        ("YouTube"@, MeetingAppKind::Media),
        ("Spotify"@, MeetingAppKind::Media),
        ("com.spotify.client"@, MeetingAppKind::Media),
        ("spotify"@, MeetingAppKind::Media),
        ("Spotify.exe"@, MeetingAppKind::Media),
        ("Apple Music"@, MeetingAppKind::Media),
        ("Music"@, MeetingAppKind::Media),
        ("iTunes"@, MeetingAppKind::Media),
        ("iTunes.exe"@, MeetingAppKind::Media),
        ("Podcasts"@, MeetingAppKind::Media),
        ("TV"@, MeetingAppKind::Media),
        ("VLC"@, MeetingAppKind::Media),
        ("VLC media player"@, MeetingAppKind::Media),
        ("vlc"@, MeetingAppKind::Media),
        ("vlc.exe"@, MeetingAppKind::Media),
        ("Plex"@, MeetingAppKind::Media),
        ("Plex.exe"@, MeetingAppKind::Media),
        ("plexamp"@, MeetingAppKind::Media),
        ("Plexamp"@, MeetingAppKind::Media)
    ]
}

/// The kind of the first entry of `table` named `name`, if any.
pub open spec fn lookup(table: Seq<(Seq<char>, MeetingAppKind)>, name: Seq<char>) -> Option<MeetingAppKind>
    decreases table.len(),
{
    if table.len() == 0 {
        None
    } else if table[0].0 == name {
        Some(table[0].1)
    } else {
        lookup(table.drop_first(), name)
    }
}

/// Classification of `name`: the first matching override, else the first
/// matching default entry, else `Other`.
pub open spec fn classify_spec(
    overrides: Seq<(Seq<char>, MeetingAppKind)>,
    entries: Seq<(Seq<char>, MeetingAppKind)>,
    name: Seq<char>,
) -> MeetingAppKind {
    match lookup(overrides, name) {
        Some(k) => k,
        None => match lookup(entries, name) {
            Some(k) => k,
            None => MeetingAppKind::Other,
        },
    }
}

/// Mathematical view of an [`AppClassifier`].
pub struct ClassifierView {
    pub entries: Seq<(Seq<char>, MeetingAppKind)>,
    pub overrides: Seq<(Seq<char>, MeetingAppKind)>,
}

/// The views of owned `(name, kind)` rows.
pub open spec fn owned_rows_view(rows: Seq<(String, MeetingAppKind)>) -> Seq<(Seq<char>, MeetingAppKind)> {
    rows.map_values(|r: (String, MeetingAppKind)| (r.0@, r.1))
}

/// The views of static `(name, kind)` rows.
pub open spec fn static_rows_view(rows: Seq<(&'static str, MeetingAppKind)>) -> Seq<(Seq<char>, MeetingAppKind)> {
    rows.map_values(|r: (&'static str, MeetingAppKind)| (r.0@, r.1))
}

/// App-name classifier: user overrides first, then the default table.
pub struct AppClassifier {
    entries: Vec<(&'static str, MeetingAppKind)>,
    overrides: Vec<(String, MeetingAppKind)>,
}

impl View for AppClassifier {
    type V = ClassifierView;

    closed spec fn view(&self) -> ClassifierView {
        ClassifierView {
            entries: static_rows_view(self.entries@),
            overrides: owned_rows_view(self.overrides@),
        }
    }
}

fn lookup_static(table: &Vec<(&'static str, MeetingAppKind)>, name: &str) -> (r: Option<MeetingAppKind>)
    ensures
        r == lookup(static_rows_view(table@), name@),
{
    let ghost t = static_rows_view(table@);
    let mut i: usize = 0;
    assert(t.subrange(0, t.len() as int) =~= t);
    while i < table.len()
        invariant
            i <= table@.len(),
            t == static_rows_view(table@),
            lookup(t, name@) == lookup(t.subrange(i as int, t.len() as int), name@),
        decreases table@.len() - i,
    {
        proof {
            assert(t.subrange(i as int, t.len() as int).drop_first() =~= t.subrange(i + 1, t.len() as int));
        }
        if str_eq(table[i].0, name) {
            return Some(table[i].1);
        }
        i = i + 1;
    }
    None
}

fn lookup_owned(table: &Vec<(String, MeetingAppKind)>, name: &str) -> (r: Option<MeetingAppKind>)
    ensures
        r == lookup(owned_rows_view(table@), name@),
{
    let ghost t = owned_rows_view(table@);
    let mut i: usize = 0;
    assert(t.subrange(0, t.len() as int) =~= t);
    while i < table.len()
        invariant
            i <= table@.len(),
            t == owned_rows_view(table@),
            lookup(t, name@) == lookup(t.subrange(i as int, t.len() as int), name@),
        decreases table@.len() - i,
    {
        proof {
            assert(t.subrange(i as int, t.len() as int).drop_first() =~= t.subrange(i + 1, t.len() as int));
        }
        if str_eq(table[i].0.as_str(), name) {
            return Some(table[i].1);
        }
        i = i + 1;
    }
    None
}

impl AppClassifier {
    /// The curated defaults with no overrides.
    pub fn default_table() -> (r: Self)
        ensures
            r@.entries == default_entries_spec(),
            r@.overrides.len() == 0,
    {
        let entries = vec![
                ("zoom.us", MeetingAppKind::Meeting),
                ("us.zoom.xos", MeetingAppKind::Meeting),
                ("Zoom", MeetingAppKind::Meeting),
                ("Zoom Meetings", MeetingAppKind::Meeting),
                ("zoom", MeetingAppKind::Meeting),
                ("Zoom.exe", MeetingAppKind::Meeting),
                ("zoom.exe", MeetingAppKind::Meeting),
                ("Microsoft Teams", MeetingAppKind::Meeting),
                ("com.microsoft.teams2", MeetingAppKind::Meeting),
                ("Microsoft Teams (work or school)", MeetingAppKind::Meeting),
                ("ms-teams", MeetingAppKind::Meeting),
                ("ms-teams.exe", MeetingAppKind::Meeting),
                ("Teams.exe", MeetingAppKind::Meeting),
                ("teams-for-linux", MeetingAppKind::Meeting),
                ("Google Meet", MeetingAppKind::Meeting),
                ("Meet", MeetingAppKind::Meeting),
                ("Discord", MeetingAppKind::Meeting),
                ("com.hnc.Discord", MeetingAppKind::Meeting),
                ("discord", MeetingAppKind::Meeting),
                ("Discord.exe", MeetingAppKind::Meeting),
                ("Slack", MeetingAppKind::Meeting),
                ("com.tinyspeck.slackmacgap", MeetingAppKind::Meeting),
                ("slack", MeetingAppKind::Meeting),
                ("slack.exe", MeetingAppKind::Meeting),
                ("Slack.exe", MeetingAppKind::Meeting),
                ("Webex", MeetingAppKind::Meeting),
                ("Cisco Webex Meetings", MeetingAppKind::Meeting),
                ("com.cisco.webexmeetingsapp", MeetingAppKind::Meeting),
                ("webex", MeetingAppKind::Meeting),
                ("Webex.exe", MeetingAppKind::Meeting),
                ("CiscoCollabHost.exe", MeetingAppKind::Meeting),
                ("Skype", MeetingAppKind::Meeting),
                ("skype", MeetingAppKind::Meeting),
                ("Skype.exe", MeetingAppKind::Meeting),
                ("GoToMeeting", MeetingAppKind::Meeting),
                ("GoToMeeting.exe", MeetingAppKind::Meeting),
                ("GoTo", MeetingAppKind::Meeting),
                ("BlueJeans", MeetingAppKind::Meeting),
                ("BlueJeans.exe", MeetingAppKind::Meeting),
                ("Loom", MeetingAppKind::Meeting),
                ("com.loom.desktop", MeetingAppKind::Meeting),
                ("Loom.exe", MeetingAppKind::Meeting),
                ("FaceTime", MeetingAppKind::Meeting),
                ("com.apple.FaceTime", MeetingAppKind::Meeting),
                ("Tuple", MeetingAppKind::Meeting),
                ("app.tuple.app", MeetingAppKind::Meeting),
                ("Around", MeetingAppKind::Meeting),
                ("co.around.Around", MeetingAppKind::Meeting),
                ("com.microsoft.teams", MeetingAppKind::Meeting),
                ("YouTube", MeetingAppKind::Media),
                ("Spotify", MeetingAppKind::Media),
                ("com.spotify.client", MeetingAppKind::Media),
                ("spotify", MeetingAppKind::Media),
                ("Spotify.exe", MeetingAppKind::Media),
                ("Apple Music", MeetingAppKind::Media),
                ("Music", MeetingAppKind::Media),
                ("iTunes", MeetingAppKind::Media),
                ("iTunes.exe", MeetingAppKind::Media),
                ("Podcasts", MeetingAppKind::Media),
                ("TV", MeetingAppKind::Media),
                ("VLC", MeetingAppKind::Media),
                ("VLC media player", MeetingAppKind::Media),
                ("vlc", MeetingAppKind::Media),
                ("vlc.exe", MeetingAppKind::Media),
                ("Plex", MeetingAppKind::Media),
                ("Plex.exe", MeetingAppKind::Media),
                ("plexamp", MeetingAppKind::Media),
                ("Plexamp", MeetingAppKind::Media)
            ];
        let r = AppClassifier { entries, overrides: Vec::new() };
        proof {
            assert(static_rows_view(r.entries@) =~= default_entries_spec());
            assert(owned_rows_view(r.overrides@) =~= Seq::<(Seq<char>, MeetingAppKind)>::empty());
        }
        r
    }

    /// The curated defaults with the given user overrides, consulted first.
    pub fn with_overrides(overrides: Vec<(String, MeetingAppKind)>) -> (r: Self)
        ensures
            r@.entries == default_entries_spec(),
            r@.overrides == owned_rows_view(overrides@),
    {
        let mut classifier = Self::default_table();
        classifier.overrides = overrides;
        classifier
    }

    /// The built-in `(app_name, kind)` rows in table order, without the
    /// user overrides.
    pub fn default_entries(&self) -> (r: Vec<(String, MeetingAppKind)>)
        ensures
            owned_rows_view(r@) == self@.entries,
    {
        let mut out: Vec<(String, MeetingAppKind)> = Vec::new();
        let mut i: usize = 0;
        while i < self.entries.len()
            invariant
                i <= self.entries@.len(),
                owned_rows_view(out@) == static_rows_view(self.entries@).take(i as int),
            decreases self.entries@.len() - i,
        {
            let (name, kind) = self.entries[i];
            let ghost before = out@;
            let owned = name.to_owned();
            assert(owned@ == self.entries@[i as int].0@);
            out.push((owned, kind));
            proof {
                assert(static_rows_view(self.entries@).take(i + 1) =~= static_rows_view(self.entries@).take(i as int).push((self.entries@[i as int].0@, kind)));
                assert(owned_rows_view(out@) =~= static_rows_view(self.entries@).take(i + 1));
            }
            i = i + 1;
        }
        proof {
            assert(static_rows_view(self.entries@).take(i as int) =~= static_rows_view(self.entries@));
        }
        out
    }

    /// Classifies `app_name`: an exact-match override wins, then an
    /// exact-match default entry, else `Other`.
    pub fn classify(&self, app_name: &str) -> (r: MeetingAppKind)
        ensures
            r == classify_spec(self@.overrides, self@.entries, app_name@),
    {
        if let Some(k) = lookup_owned(&self.overrides, app_name) {
            return k;
        }
        if let Some(k) = lookup_static(&self.entries, app_name) {
            return k;
        }
        MeetingAppKind::Other
    }
}

/// Overrides win: an app named in the overrides gets the first matching
/// override's kind, whatever the defaults say; an app absent from the
/// overrides gets exactly its default classification.
pub proof fn law_override_wins(
    overrides: Seq<(Seq<char>, MeetingAppKind)>,
    entries: Seq<(Seq<char>, MeetingAppKind)>,
    name: Seq<char>,
)
    ensures
        lookup(overrides, name) matches Some(k) ==> classify_spec(overrides, entries, name) == k,
        lookup(overrides, name) is None ==> classify_spec(overrides, entries, name)
            == classify_spec(Seq::empty(), entries, name),
{
}

/// The first entry of `t` named like entry `i` comes no later than `i`,
/// and classification finds exactly that entry's kind.
proof fn lemma_lookup_finds(t: Seq<(Seq<char>, MeetingAppKind)>, i: int)
    requires
        0 <= i < t.len(),
    ensures
        exists|j: int|
            0 <= j <= i && #[trigger] t[j].0 == t[i].0 && lookup(t, t[i].0) == Some(t[j].1),
    decreases t.len(),
{
    if t[0].0 == t[i].0 {
        assert(lookup(t, t[i].0) == Some(t[0].1));
    } else {
        lemma_lookup_finds(t.drop_first(), i - 1);
        let j = choose|j: int|
            0 <= j <= i - 1 && #[trigger] t.drop_first()[j].0 == t.drop_first()[i - 1].0
                && lookup(t.drop_first(), t.drop_first()[i - 1].0) == Some(t.drop_first()[j].1);
        assert(t[j + 1].0 == t[i].0);
    }
}

/// Length, first and last character of a name.
spec fn name_sig(s: Seq<char>) -> (nat, char, char) {
    (s.len(), s[0], s.last())
}

/// Whether `g` is the signature of one of the default media apps.
spec fn media_sig(g: (nat, char, char)) -> bool {
    ||| g == name_sig("YouTube"@)
    ||| g == name_sig("Spotify"@)
    ||| g == name_sig("com.spotify.client"@)
    ||| g == name_sig("spotify"@)
    ||| g == name_sig("Spotify.exe"@)
    ||| g == name_sig("Apple Music"@)
    ||| g == name_sig("Music"@)
    ||| g == name_sig("iTunes"@)
    ||| g == name_sig("iTunes.exe"@)
    ||| g == name_sig("Podcasts"@)
    ||| g == name_sig("TV"@)
    ||| g == name_sig("VLC"@)
    ||| g == name_sig("VLC media player"@)
    ||| g == name_sig("vlc"@)
    ||| g == name_sig("vlc.exe"@)
    ||| g == name_sig("Plex"@)
    ||| g == name_sig("Plex.exe"@)
    ||| g == name_sig("plexamp"@)
    ||| g == name_sig("Plexamp"@)
}

/// No meeting app in the default table shares its name with a media app:
/// their names already differ in length, first or last character.
proof fn lemma_default_names_disjoint()
    ensures
        forall|i: int, j: int|
            0 <= j < 49 <= i < 68 ==> (#[trigger] default_entries_spec()[i]).0
                != (#[trigger] default_entries_spec()[j]).0,
{
        reveal_strlit("zoom.us");
        reveal_strlit("us.zoom.xos");
        reveal_strlit("Zoom");
        reveal_strlit("Zoom Meetings");
        reveal_strlit("zoom");
        reveal_strlit("Zoom.exe");
        reveal_strlit("zoom.exe");
        reveal_strlit("Microsoft Teams");
        reveal_strlit("com.microsoft.teams2");
        reveal_strlit("Microsoft Teams (work or school)");
        reveal_strlit("ms-teams");
        reveal_strlit("ms-teams.exe");
        reveal_strlit("Teams.exe");
        reveal_strlit("teams-for-linux");
        reveal_strlit("Google Meet");
        reveal_strlit("Meet");
        reveal_strlit("Discord");
        reveal_strlit("com.hnc.Discord");
        reveal_strlit("discord");
        reveal_strlit("Discord.exe");
        reveal_strlit("Slack");
        reveal_strlit("com.tinyspeck.slackmacgap");
        reveal_strlit("slack");
        reveal_strlit("slack.exe");
        reveal_strlit("Slack.exe");
        reveal_strlit("Webex");
        reveal_strlit("Cisco Webex Meetings");
        reveal_strlit("com.cisco.webexmeetingsapp");
        reveal_strlit("webex");
        reveal_strlit("Webex.exe");
        reveal_strlit("CiscoCollabHost.exe");
        reveal_strlit("Skype");
        reveal_strlit("skype");
        reveal_strlit("Skype.exe");
        reveal_strlit("GoToMeeting");
        reveal_strlit("GoToMeeting.exe");
        reveal_strlit("GoTo");
        reveal_strlit("BlueJeans");
        reveal_strlit("BlueJeans.exe");
        reveal_strlit("Loom");
        reveal_strlit("com.loom.desktop");
        reveal_strlit("Loom.exe");
        reveal_strlit("FaceTime");
        reveal_strlit("com.apple.FaceTime");
        reveal_strlit("Tuple");
        reveal_strlit("app.tuple.app");
        reveal_strlit("Around");
        reveal_strlit("co.around.Around");
        reveal_strlit("com.microsoft.teams");
        reveal_strlit("YouTube");
        reveal_strlit("Spotify");
        reveal_strlit("com.spotify.client");
        reveal_strlit("spotify");
        reveal_strlit("Spotify.exe");
        reveal_strlit("Apple Music");
        reveal_strlit("Music");
        reveal_strlit("iTunes");
        reveal_strlit("iTunes.exe");
        reveal_strlit("Podcasts");
        reveal_strlit("TV");
        reveal_strlit("VLC");
        reveal_strlit("VLC media player");
        reveal_strlit("vlc");
        reveal_strlit("vlc.exe");
        reveal_strlit("Plex");
        reveal_strlit("Plex.exe");
        reveal_strlit("plexamp");
        reveal_strlit("Plexamp");
    let d = default_entries_spec();
    assert forall|j: int| 0 <= j < 49 implies !media_sig(name_sig((#[trigger] d[j]).0)) by {
        assert(
            j == 0 || j == 1 || j == 2 || j == 3 || j == 4 || j == 5 || j == 6 || j == 7
            || j == 8 || j == 9 || j == 10 || j == 11 || j == 12 || j == 13 || j == 14
            || j == 15 || j == 16 || j == 17 || j == 18 || j == 19 || j == 20 || j == 21
            || j == 22 || j == 23 || j == 24 || j == 25 || j == 26 || j == 27 || j == 28
            || j == 29 || j == 30 || j == 31 || j == 32 || j == 33 || j == 34 || j == 35
            || j == 36 || j == 37 || j == 38 || j == 39 || j == 40 || j == 41 || j == 42
            || j == 43 || j == 44 || j == 45 || j == 46 || j == 47 || j == 48
        );
    }
    assert forall|i: int| 49 <= i < 68 implies media_sig(name_sig((#[trigger] d[i]).0)) by {
        assert(
            i == 49 || i == 50 || i == 51 || i == 52 || i == 53 || i == 54 || i == 55
            || i == 56 || i == 57 || i == 58 || i == 59 || i == 60 || i == 61 || i == 62
            || i == 63 || i == 64 || i == 65 || i == 66 || i == 67
        );
    }
    assert forall|i: int, j: int| 0 <= j < 49 <= i < 68 implies (#[trigger] d[i]).0 != (#[trigger] d[j]).0 by {
        assert(!media_sig(name_sig(d[j].0)));
        assert(media_sig(name_sig(d[i].0)));
    }
}

/// Every row of the default table classifies to its own kind in a
/// classifier without overrides (such as [`AppClassifier::default_table`]),
/// and no default kind is `Other`. This holds because no name in the table
/// repeats with another kind.
pub proof fn law_default_entries_classify_to_themselves(c: ClassifierView)
    requires
        c.entries == default_entries_spec(),
        c.overrides.len() == 0,
    ensures
        c.entries.len() == 68,
        forall|i: int|
            0 <= i < c.entries.len() ==> classify_spec(
                c.overrides,
                c.entries,
                (#[trigger] c.entries[i]).0,
            ) == c.entries[i].1 && c.entries[i].1 != MeetingAppKind::Other,
{
    let d = default_entries_spec();
    assert(d.len() == 68);
    assert(forall|j: int| 0 <= j < 49 ==> (#[trigger] d[j]).1 == MeetingAppKind::Meeting);
    assert(forall|j: int| 49 <= j < 68 ==> (#[trigger] d[j]).1 == MeetingAppKind::Media);
    lemma_default_names_disjoint();
    assert forall|i: int| 0 <= i < d.len() implies classify_spec(c.overrides, d, (#[trigger] d[i]).0)
        == d[i].1 && d[i].1 != MeetingAppKind::Other by {
        lemma_lookup_finds(d, i);
        let j = choose|j: int| 0 <= j <= i && #[trigger] d[j].0 == d[i].0 && lookup(d, d[i].0) == Some(d[j].1);
        assert(lookup(c.overrides, d[i].0) is None);
    }
}

} // verus!
