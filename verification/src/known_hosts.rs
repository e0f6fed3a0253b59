//! The hosts whose certificates were accepted, and the file that remembers them.
//!
//! A line of the file is an address, a fingerprint and a note, separated by spaces. Blank lines
//! and lines that start with `#` do not count.
use crate::text::{
    chars_of, lemma_first_index_unique, lemma_split_joined, split, split_first, split_on,
    split_once, text_eq, trim, trim_end, trim_start, trimmed,
};
use vstd::prelude::*;

verus! {

/// A host that was accepted.
#[derive(Debug)]
pub struct KnownHostEntry {
    pub addr: String,
    pub fingerprint: String,
    pub accepted_at: String,
}

/// What a [`KnownHostEntry`] says.
#[verifier::ext_equal]
pub struct EntryModel {
    pub addr: Seq<char>,
    pub fingerprint: Seq<char>,
    pub accepted_at: Seq<char>,
}

impl DeepView for KnownHostEntry {
    type V = EntryModel;

    open spec fn deep_view(&self) -> EntryModel {
        EntryModel {
            addr: self.addr@,
            fingerprint: self.fingerprint@,
            accepted_at: self.accepted_at@,
        }
    }
}

impl Clone for KnownHostEntry {
    fn clone(&self) -> (r: KnownHostEntry)
        ensures
            r.deep_view() == self.deep_view(),
    {
        KnownHostEntry {
            addr: self.addr.clone(),
            fingerprint: self.fingerprint.clone(),
            accepted_at: self.accepted_at.clone(),
        }
    }
}

/// The hosts that were accepted, and the path of the file that remembers them.
#[derive(Debug)]
pub struct KnownHosts {
    path: String,
    entries: Vec<KnownHostEntry>,
}

impl Clone for KnownHosts {
    fn clone(&self) -> (r: KnownHosts)
        ensures
            r.file() == self.file(),
            r.known() == self.known(),
    {
        let entries = self.entries.clone();
        assert(entries.deep_view() =~= self.entries.deep_view());
        KnownHosts { path: self.path.clone(), entries }
    }
}

/// What is known of a host.
#[derive(Debug)]
pub enum CheckResult {
    /// The fingerprint is the one that was accepted.
    Match,
    /// Another fingerprint was accepted.
    Mismatch { expected: String, actual: String },
    /// Nothing was accepted for this address.
    Unknown,
}

/// What a [`CheckResult`] says.
#[verifier::ext_equal]
pub enum CheckModel {
    Match,
    Mismatch { expected: Seq<char>, actual: Seq<char> },
    Unknown,
}

impl DeepView for CheckResult {
    type V = CheckModel;

    open spec fn deep_view(&self) -> CheckModel {
        match *self {
            CheckResult::Match => CheckModel::Match,
            CheckResult::Mismatch { expected, actual } => CheckModel::Mismatch {
                expected: expected@,
                actual: actual@,
            },
            CheckResult::Unknown => CheckModel::Unknown,
        }
    }
}

/// What is known of a host: the first entry for its address decides.
pub open spec fn check_of(
    entries: Seq<EntryModel>,
    addr: Seq<char>,
    fingerprint: Seq<char>,
) -> CheckModel
    decreases entries.len(),
{
    if entries.len() == 0 {
        CheckModel::Unknown
    } else if entries[0].addr == addr {
        if entries[0].fingerprint == fingerprint {
            CheckModel::Match
        } else {
            CheckModel::Mismatch { expected: entries[0].fingerprint, actual: fingerprint }
        }
    } else {
        check_of(entries.drop_first(), addr, fingerprint)
    }
}

/// The entries for other addresses.
pub open spec fn without(entries: Seq<EntryModel>, addr: Seq<char>) -> Seq<EntryModel>
    decreases entries.len(),
{
    if entries.len() == 0 {
        Seq::empty()
    } else if entries[0].addr == addr {
        without(entries.drop_first(), addr)
    } else {
        seq![entries[0]] + without(entries.drop_first(), addr)
    }
}

/// The entries once `e` has taken the place of what stood for its address.
pub open spec fn added(entries: Seq<EntryModel>, e: EntryModel) -> Seq<EntryModel> {
    without(entries, e.addr).push(e)
}

/// The entry that a line stands for.
pub open spec fn line_entry(line: Seq<char>) -> Option<EntryModel> {
    let t = trimmed(line);
    if t.len() == 0 || t[0] == '#' {
        None
    } else {
        match split_first(t, ' ') {
            None => None,
            Some((addr, rest)) => match split_first(rest, ' ') {
                None => Some(
                    EntryModel { addr, fingerprint: rest, accepted_at: Seq::empty() },
                ),
                Some((fingerprint, accepted_at)) => Some(
                    EntryModel { addr, fingerprint, accepted_at },
                ),
            },
        }
    }
}

/// The entries that lines stand for.
pub open spec fn lines_entries(lines: Seq<Seq<char>>) -> Seq<EntryModel>
    decreases lines.len(),
{
    if lines.len() == 0 {
        Seq::empty()
    } else {
        match line_entry(lines[0]) {
            Some(e) => seq![e] + lines_entries(lines.drop_first()),
            None => lines_entries(lines.drop_first()),
        }
    }
}

/// The entries that the text of a file stands for.
pub open spec fn entries_of(text: Seq<char>) -> Seq<EntryModel> {
    lines_entries(split_on(text, '\n'))
}

/// The line for an entry.
pub open spec fn entry_line(e: EntryModel) -> Seq<char> {
    e.addr + seq![' '] + (e.fingerprint + seq![' '] + e.accepted_at)
}

/// A line for each entry, each line closed by a line feed.
pub open spec fn entry_lines(entries: Seq<EntryModel>) -> Seq<char>
    decreases entries.len(),
{
    if entries.len() == 0 {
        Seq::empty()
    } else {
        entry_line(entries[0]) + seq!['\n'] + entry_lines(entries.drop_first())
    }
}

/// The text of the file for these entries. Without entries it is a single line feed.
pub open spec fn saved_text(entries: Seq<EntryModel>) -> Seq<char> {
    if entries.len() == 0 {
        seq!['\n']
    } else {
        entry_lines(entries)
    }
}

/// Whether `c` can stand in a date and time written with digits.
pub open spec fn is_date_char(c: char) -> bool {
    crate::text::is_digit(c) || c == '-' || c == '+' || c == ':' || c == ' '
}

/// Whether `at` is the note that an acceptance at `date` leaves.
pub open spec fn is_note_for(at: Seq<char>, date: Seq<char>) -> bool {
    &&& at == "(accepted on "@ + date + " UTC)"@
    &&& forall|i: int| 0 <= i < date.len() ==> is_date_char(#[trigger] date[i])
}

/// Whether `at` is the note that an acceptance leaves.
pub open spec fn is_acceptance_note(at: Seq<char>) -> bool {
    exists|date: Seq<char>| is_note_for(at, date)
}

/// `chrono::Utc::now` and `DateTime::format`: the date and the time of this moment, made of digits,
/// signs, colons and a space. Which moment it is depends on the clock.
#[verifier::external_body]
fn current_date() -> (r: String)
    ensures
        forall|i: int| 0 <= i < r@.len() ==> is_date_char(#[trigger] r@[i]),
{
    chrono::Utc::now().format("%Y-%m-%d %H:%M:%S").to_string()
}

/// The note that an acceptance at `date` leaves.
pub fn acceptance_note(date: &str) -> (r: String)
    ensures
        r@ == "(accepted on "@ + date@ + " UTC)"@,
{
    "(accepted on ".to_owned().concat(date).concat(" UTC)")
}

/// What is asked before an unknown host is accepted.
pub open spec fn confirmation_prompt(addr: Seq<char>, fingerprint: Seq<char>) -> Seq<char> {
    "\nThe authenticity of host '["@ + addr + "]' can't be established.\nFingerprint: "@
        + fingerprint + "\nAre you sure you want to continue connecting? (yes/no)\n"@
}

/// Whether `c` is the letter `lower` or its capital `upper`.
pub open spec fn either_case(c: char, lower: char, upper: char) -> bool {
    c == lower || c == upper
}

/// Whether an answer means yes: `yes` or `y`, in any case, with blanks around it.
pub open spec fn means_yes(input: Seq<char>) -> bool {
    let t = trimmed(input);
    ||| t.len() == 1 && either_case(t[0], 'y', 'Y')
    ||| t.len() == 3 && either_case(t[0], 'y', 'Y') && either_case(t[1], 'e', 'E') && either_case(
        t[2],
        's',
        'S',
    )
}

fn parse_line(line: &str) -> (r: Option<KnownHostEntry>)
    ensures
        match r {
            Some(e) => line_entry(line@) == Some(e.deep_view()),
            None => line_entry(line@) is None,
        },
{
    let t = trim(line);
    if t.unicode_len() == 0 || t.get_char(0) == '#' {
        return None;
    }
    match split_once(t, ' ') {
        None => None,
        Some((addr, rest)) => {
            let addr = addr.to_owned();
            match split_once(rest, ' ') {
                None => {
                    proof {
                        reveal_strlit("");
                        assert(""@ =~= Seq::empty());
                    }
                    Some(
                        KnownHostEntry {
                            addr,
                            fingerprint: rest.to_owned(),
                            accepted_at: "".to_owned(),
                        },
                    )
                },
                Some((fingerprint, accepted_at)) => Some(
                    KnownHostEntry {
                        addr,
                        fingerprint: fingerprint.to_owned(),
                        accepted_at: accepted_at.to_owned(),
                    },
                ),
            }
        },
    }
}

proof fn lemma_entry_lines_push(entries: Seq<EntryModel>, e: EntryModel)
    ensures
        entry_lines(entries.push(e)) == entry_lines(entries) + entry_line(e) + seq!['\n'],
    decreases entries.len(),
{
    let more = entries.push(e);
    if entries.len() == 0 {
        assert(more.drop_first() =~= Seq::empty());
        reveal_with_fuel(entry_lines, 2);
        assert(entry_lines(more) =~= entry_lines(entries) + entry_line(e) + seq!['\n']);
    } else {
        assert(more.drop_first() =~= entries.drop_first().push(e));
        lemma_entry_lines_push(entries.drop_first(), e);
        assert(entry_lines(more) =~= entry_lines(entries) + entry_line(e) + seq!['\n']);
    }
}

impl KnownHosts {
    /// What is remembered.
    pub closed spec fn known(&self) -> Seq<EntryModel> {
        self.entries.deep_view()
    }

    /// The path of the file.
    pub closed spec fn file(&self) -> Seq<char> {
        self.path@
    }

    /// These entries, remembered in the file at `path`.
    pub fn from_entries(path: String, entries: Vec<KnownHostEntry>) -> (r: KnownHosts)
        ensures
            r.file() == path@,
            r.known() == entries.deep_view(),
    {
        KnownHosts { path, entries }
    }

    /// The path of the file.
    pub fn path(&self) -> (r: &str)
        ensures
            r@ == self.file(),
    {
        self.path.as_str()
    }

    /// What the file at `path` remembers. `content` is its text, or `None` if there is no file or
    /// it cannot be read; then nothing is remembered.
    pub fn load(path: String, content: Option<&str>) -> (r: KnownHosts)
        ensures
            r.file() == path@,
            r.known() == match content {
                Some(text) => entries_of(text@),
                None => Seq::empty(),
            },
    {
        let mut entries: Vec<KnownHostEntry> = Vec::new();
        assert(entries.deep_view() =~= Seq::empty());
        if let Some(text) = content {
            let lines = split(text, '\n');
            let ghost all = split_on(text@, '\n');
            let mut i: usize = 0;
            proof {
                assert(all.skip(0) =~= all);
                assert(entries.deep_view() + lines_entries(all) =~= lines_entries(all));
            }
            while i < lines.len()
                invariant
                    i <= lines@.len(),
                    lines@.len() == all.len(),
                    forall|k: int| 0 <= k < lines@.len() ==> #[trigger] lines@[k]@ == all[k],
                    lines_entries(all) == entries.deep_view() + lines_entries(all.skip(i as int)),
                decreases lines@.len() - i,
            {
                let ghost done = entries.deep_view();
                proof {
                    assert(all.skip(i as int).drop_first() =~= all.skip(i + 1));
                    assert(all.skip(i as int)[0] == all[i as int]);
                }
                if let Some(e) = parse_line(lines[i]) {
                    let ghost m = e.deep_view();
                    entries.push(e);
                    proof {
                        assert(entries.deep_view() =~= done.push(m));
                        assert(done + (seq![m] + lines_entries(all.skip(i + 1)))
                            =~= entries.deep_view() + lines_entries(all.skip(i + 1)));
                    }
                }
                i = i + 1;
            }
            proof {
                assert(all.skip(all.len() as int) =~= Seq::empty());
                assert(entries.deep_view() =~= lines_entries(all));
            }
        }
        KnownHosts { path, entries }
    }

    /// The text to write to the file.
    pub fn save(&self) -> (r: String)
        ensures
            r@ == saved_text(self.known()),
    {
        let ghost all = self.entries.deep_view();
        if self.entries.len() == 0 {
            proof {
                reveal_strlit("\n");
                assert("\n"@ =~= seq!['\n']);
            }
            return "\n".to_owned();
        }
        let mut text = "".to_owned();
        let mut i: usize = 0;
        proof {
            reveal_strlit("");
            reveal_strlit(" ");
            reveal_strlit("\n");
            assert(all.take(0) =~= Seq::empty());
            assert(text@ =~= entry_lines(all.take(0)));
        }
        while i < self.entries.len()
            invariant
                i <= self.entries@.len(),
                all == self.entries.deep_view(),
                text@ == entry_lines(all.take(i as int)),
                " "@ == seq![' '],
                "\n"@ == seq!['\n'],
            decreases self.entries@.len() - i,
        {
            let ghost before = text@;
            let e = &self.entries[i];
            text.append(e.addr.as_str());
            text.append(" ");
            text.append(e.fingerprint.as_str());
            text.append(" ");
            text.append(e.accepted_at.as_str());
            text.append("\n");
            proof {
                let m = all[i as int];
                assert(all.take(i + 1) =~= all.take(i as int).push(m));
                lemma_entry_lines_push(all.take(i as int), m);
                assert(text@ =~= before + entry_line(m) + seq!['\n']);
            }
            i = i + 1;
        }
        assert(all.take(all.len() as int) =~= all);
        text
    }

    /// What is known of the host at `addr` that shows this fingerprint.
    pub fn check(&self, addr: &str, fingerprint: &str) -> (r: CheckResult)
        ensures
            r.deep_view() == check_of(self.known(), addr@, fingerprint@),
    {
        let ghost all = self.entries.deep_view();
        let mut i: usize = 0;
        assert(all.skip(0) =~= all);
        while i < self.entries.len()
            invariant
                i <= self.entries@.len(),
                all == self.known(),
                all == self.entries.deep_view(),
                check_of(all, addr@, fingerprint@) == check_of(
                    all.skip(i as int),
                    addr@,
                    fingerprint@,
                ),
            decreases self.entries@.len() - i,
        {
            proof {
                assert(all.skip(i as int).drop_first() =~= all.skip(i + 1));
                assert(all.skip(i as int)[0] == all[i as int]);
            }
            let entry = &self.entries[i];
            if text_eq(entry.addr.as_str(), addr) {
                if text_eq(entry.fingerprint.as_str(), fingerprint) {
                    return CheckResult::Match;
                } else {
                    return CheckResult::Mismatch {
                        expected: entry.fingerprint.clone(),
                        actual: fingerprint.to_owned(),
                    };
                }
            }
            i = i + 1;
        }
        CheckResult::Unknown
    }

    /// Remembers a host with the note `accepted_at`, in place of what was known of its address.
    pub fn add_entry(&mut self, addr: &str, fingerprint: &str, accepted_at: String)
        ensures
            final(self).file() == old(self).file(),
            final(self).known() == added(
                old(self).known(),
                EntryModel { addr: addr@, fingerprint: fingerprint@, accepted_at: accepted_at@ },
            ),
    {
        let entry = KnownHostEntry {
            addr: addr.to_owned(),
            fingerprint: fingerprint.to_owned(),
            accepted_at,
        };
        let mut entries: Vec<KnownHostEntry> = Vec::new();
        std::mem::swap(&mut entries, &mut self.entries);
        let ghost all = entries.deep_view();
        let mut kept: Vec<KnownHostEntry> = Vec::new();
        proof {
            assert(all.skip(0) =~= all);
            assert(kept.deep_view() + without(all, addr@) =~= without(all, addr@));
        }
        for e in it: entries
            invariant
                it.seq().len() == all.len(),
                forall|i: int| 0 <= i < all.len() ==> (#[trigger] it.seq()[i]).deep_view() == all[i],
                without(all, addr@) == kept.deep_view() + without(
                    all.skip(it.index() as int),
                    addr@,
                ),
        {
            let ghost i = it.index() as int;
            let ghost done = kept.deep_view();
            proof {
                assert(all.skip(i).drop_first() =~= all.skip(i + 1));
                assert(all.skip(i)[0] == all[i]);
            }
            if !text_eq(e.addr.as_str(), addr) {
                kept.push(e);
                proof {
                    assert(kept.deep_view() =~= done.push(all[i]));
                    assert(done + (seq![all[i]] + without(all.skip(i + 1), addr@))
                        =~= kept.deep_view() + without(all.skip(i + 1), addr@));
                }
            }
        }
        proof {
            assert(all.skip(all.len() as int) =~= Seq::empty());
            assert(kept.deep_view() =~= without(all, addr@));
        }
        let ghost others = kept.deep_view();
        let ghost m = entry.deep_view();
        kept.push(entry);
        assert(kept.deep_view() =~= others.push(m));
        self.entries = kept;
    }

    /// Remembers a host as accepted now, in place of what was known of its address.
    pub fn add(&mut self, addr: &str, fingerprint: &str)
        ensures
            final(self).file() == old(self).file(),
            exists|at: Seq<char>|
                is_acceptance_note(at) && final(self).known() == #[trigger] added(
                    old(self).known(),
                    EntryModel { addr: addr@, fingerprint: fingerprint@, accepted_at: at },
                ),
    {
        let date = current_date();
        let note = acceptance_note(date.as_str());
        let ghost at = note@;
        self.add_entry(addr, fingerprint, note);
        assert(is_note_for(at, date@));
    }

    /// What to ask before an unknown host is accepted.
    pub fn prompt(addr: &str, fingerprint: &str) -> (r: String)
        ensures
            r@ == confirmation_prompt(addr@, fingerprint@),
    {
        "\nThe authenticity of host '[".to_owned().concat(addr).concat(
            "]' can't be established.\nFingerprint: ",
        ).concat(fingerprint).concat("\nAre you sure you want to continue connecting? (yes/no)\n")
    }

    /// Whether what was typed at the prompt accepts the host.
    pub fn is_confirmed(input: &str) -> (r: bool)
        ensures
            r == means_yes(input@),
    {
        let cs = chars_of(trim(input));
        (cs.len() == 1 && (cs[0] == 'y' || cs[0] == 'Y')) || (cs.len() == 3 && (cs[0] == 'y'
            || cs[0] == 'Y') && (cs[1] == 'e' || cs[1] == 'E') && (cs[2] == 's' || cs[2] == 'S'))
    }
}

proof fn lemma_check_push(entries: Seq<EntryModel>, e: EntryModel, addr: Seq<char>, fp: Seq<char>)
    ensures
        check_of(entries, addr, fp) is Unknown ==> check_of(entries.push(e), addr, fp) == check_of(
            seq![e],
            addr,
            fp,
        ),
        check_of(entries, addr, fp) !is Unknown ==> check_of(entries.push(e), addr, fp) == check_of(
            entries,
            addr,
            fp,
        ),
    decreases entries.len(),
{
    if entries.len() == 0 {
        assert(entries.push(e) =~= seq![e]);
    } else {
        assert(entries.push(e).drop_first() =~= entries.drop_first().push(e));
        lemma_check_push(entries.drop_first(), e, addr, fp);
    }
}

proof fn lemma_check_without(
    entries: Seq<EntryModel>,
    gone: Seq<char>,
    addr: Seq<char>,
    fp: Seq<char>,
)
    ensures
        check_of(without(entries, gone), addr, fp) == if addr == gone {
            CheckModel::Unknown
        } else {
            check_of(entries, addr, fp)
        },
    decreases entries.len(),
{
    if entries.len() > 0 {
        lemma_check_without(entries.drop_first(), gone, addr, fp);
        if entries[0].addr != gone {
            let rest = without(entries.drop_first(), gone);
            assert((seq![entries[0]] + rest).drop_first() =~= rest);
        }
    }
}

/// A host that was just remembered matches with its fingerprint, and with no other.
pub proof fn law_added_host_matches(entries: Seq<EntryModel>, e: EntryModel, fp: Seq<char>)
    ensures
        check_of(added(entries, e), e.addr, fp) == if fp == e.fingerprint {
            CheckModel::Match
        } else {
            CheckModel::Mismatch { expected: e.fingerprint, actual: fp }
        },
{
    lemma_check_without(entries, e.addr, e.addr, fp);
    lemma_check_push(without(entries, e.addr), e, e.addr, fp);
}

/// Remembering a host changes nothing for any other address.
pub proof fn law_other_hosts_unaffected(
    entries: Seq<EntryModel>,
    e: EntryModel,
    addr: Seq<char>,
    fp: Seq<char>,
)
    requires
        addr != e.addr,
    ensures
        check_of(added(entries, e), addr, fp) == check_of(entries, addr, fp),
{
    reveal_with_fuel(check_of, 2);
    lemma_check_without(entries, e.addr, addr, fp);
    lemma_check_push(without(entries, e.addr), e, addr, fp);
}

/// An entry whose line reads back as the entry.
pub open spec fn reads_back(e: EntryModel) -> bool {
    &&& line_entry(entry_line(e)) == Some(e)
    &&& forall|i: int| 0 <= i < entry_line(e).len() ==> entry_line(e)[i] != '\n'
}

/// What is saved is what is loaded, as long as each entry reads back from its own line.
pub proof fn law_saved_file_loads_back(entries: Seq<EntryModel>)
    requires
        forall|i: int| 0 <= i < entries.len() ==> reads_back(#[trigger] entries[i]),
    ensures
        entries_of(saved_text(entries)) == entries,
{
    if entries.len() == 0 {
        let nothing = Seq::<char>::empty();
        lemma_split_joined(nothing, nothing, '\n');
        assert(nothing + seq!['\n'] + nothing =~= seq!['\n']);
        lemma_one_line(nothing);
        assert(split_on(seq!['\n'], '\n') =~= seq![nothing, nothing]);
        lemma_blank_line();
        reveal_with_fuel(lines_entries, 3);
        assert(seq![nothing, nothing].drop_first().drop_first() =~= Seq::empty());
        assert(entries_of(saved_text(entries)) =~= entries);
    } else {
        lemma_lines_load_back(entries);
    }
}

proof fn lemma_one_line(s: Seq<char>)
    requires
        forall|i: int| 0 <= i < s.len() ==> s[i] != '\n',
    ensures
        split_on(s, '\n') == seq![s],
{
    lemma_first_index_unique(s, '\n', s.len() as int);
}

proof fn lemma_blank_line()
    ensures
        line_entry(Seq::empty()) is None,
{
}

proof fn lemma_lines_load_back(entries: Seq<EntryModel>)
    requires
        forall|i: int| 0 <= i < entries.len() ==> reads_back(#[trigger] entries[i]),
    ensures
        entries_of(entry_lines(entries)) == entries,
    decreases entries.len(),
{
    if entries.len() == 0 {
        let nothing = Seq::<char>::empty();
        lemma_one_line(nothing);
        lemma_blank_line();
        reveal_with_fuel(lines_entries, 2);
        assert(seq![nothing].drop_first() =~= Seq::empty());
        assert(entries_of(nothing) =~= entries);
    } else {
        let e = entries[0];
        let rest = entries.drop_first();
        assert forall|i: int| 0 <= i < rest.len() implies reads_back(#[trigger] rest[i]) by {
            assert(rest[i] == entries[i + 1]);
        }
        lemma_lines_load_back(rest);
        assert(reads_back(entries[0]));
        lemma_one_line(entry_line(e));
        lemma_split_joined(entry_line(e), entry_lines(rest), '\n');
        let pieces = split_on(entry_lines(entries), '\n');
        assert(pieces[0] == entry_line(e));
        assert(pieces.drop_first() =~= split_on(entry_lines(rest), '\n'));
        assert(entries_of(entry_lines(entries)) =~= entries);
    }
}

/// Whether a text holds no blank of any kind.
pub open spec fn solid(s: Seq<char>) -> bool {
    forall|i: int| 0 <= i < s.len() ==> !crate::text::is_whitespace(#[trigger] s[i])
}

proof fn lemma_trim_nothing(s: Seq<char>)
    requires
        s.len() > 0,
        !crate::text::is_whitespace(s[0]),
        !crate::text::is_whitespace(s.last()),
    ensures
        trimmed(s) == s,
{
    assert(trim_start(s) == s);
    assert(trim_end(s) == s);
}

/// Whether a note reads back from the end of a line: it stays on the line, and its end is not taken
/// for the blanks around the line.
pub open spec fn is_plain_note(at: Seq<char>) -> bool {
    &&& at.len() > 0 ==> !crate::text::is_whitespace(at.last())
    &&& forall|i: int| 0 <= i < at.len() ==> at[i] != '\n'
}

/// The note that an acceptance leaves reads back.
pub proof fn law_acceptance_notes_are_plain(at: Seq<char>)
    requires
        is_acceptance_note(at),
    ensures
        is_plain_note(at),
{
    reveal_strlit(" UTC)");
    reveal_strlit("(accepted on ");
    let date = choose|date: Seq<char>| is_note_for(at, date);
    let head = "(accepted on "@;
    assert(at.last() == ')');
    assert forall|i: int| 0 <= i < at.len() implies at[i] != '\n' by {
        if head.len() <= i < head.len() + date.len() {
            assert(at[i] == date[i - head.len()]);
            assert(is_date_char(date[i - head.len()]));
        }
    }
}

/// Any entry reads back whose address and fingerprint are not empty and hold no blanks, whose
/// address does not start with `#`, and whose note is plain.
pub proof fn law_plain_entries_read_back(e: EntryModel)
    requires
        e.addr.len() > 0 && solid(e.addr) && e.addr[0] != '#',
        e.fingerprint.len() > 0 && solid(e.fingerprint),
        is_plain_note(e.accepted_at),
    ensures
        reads_back(e),
{
    let tail = e.fingerprint + seq![' '] + e.accepted_at;
    let line = entry_line(e);
    assert(line[0] == e.addr[0]);
    assert forall|i: int| 0 <= i < line.len() implies line[i] != '\n' by {
        if i < e.addr.len() {
            assert(line[i] == e.addr[i]);
        } else if i > e.addr.len() {
            let j = i - e.addr.len() - 1;
            assert(line[i] == tail[j]);
            if j < e.fingerprint.len() {
                assert(tail[j] == e.fingerprint[j]);
            } else if j > e.fingerprint.len() {
                assert(tail[j] == e.accepted_at[j - e.fingerprint.len() - 1]);
            }
        }
    }
    assert forall|i: int| 0 <= i < e.addr.len() implies e.addr[i] != ' ' by {
        assert(!crate::text::is_whitespace(e.addr[i]));
    }
    assert forall|i: int| 0 <= i < e.fingerprint.len() implies e.fingerprint[i] != ' ' by {
        assert(!crate::text::is_whitespace(e.fingerprint[i]));
    }
    if e.accepted_at.len() == 0 {
        let t = e.addr + seq![' '] + e.fingerprint;
        assert(line.drop_last() =~= t);
        assert(line.last() == ' ');
        assert(trim_start(line) == line);
        assert(t.last() == e.fingerprint.last());
        assert(trim_end(line) == trim_end(t));
        lemma_trim_nothing(t);
        assert(trimmed(line) == t);
        lemma_first_index_unique(t, ' ', e.addr.len() as int);
        assert(t.take(e.addr.len() as int) =~= e.addr);
        assert(t.skip(e.addr.len() as int + 1) =~= e.fingerprint);
        lemma_first_index_unique(e.fingerprint, ' ', e.fingerprint.len() as int);
        assert(e.accepted_at =~= Seq::empty());
    } else {
        let at = e.accepted_at;
        assert(line.last() == at.last());
        lemma_trim_nothing(line);
        lemma_first_index_unique(line, ' ', e.addr.len() as int);
        assert(line.take(e.addr.len() as int) =~= e.addr);
        assert(line.skip(e.addr.len() as int + 1) =~= tail);
        lemma_first_index_unique(tail, ' ', e.fingerprint.len() as int);
        assert(tail.take(e.fingerprint.len() as int) =~= e.fingerprint);
        assert(tail.skip(e.fingerprint.len() as int + 1) =~= at);
    }
}

/// The first entry for an address decides what is known of it: the fingerprint that was accepted
/// matches, any other is a mismatch that names both. An address without an entry is unknown.
pub proof fn law_first_entry_decides(
    entries: Seq<EntryModel>,
    addr: Seq<char>,
    fingerprint: Seq<char>,
    k: int,
)
    requires
        0 <= k <= entries.len(),
        forall|i: int| 0 <= i < k ==> (#[trigger] entries[i]).addr != addr,
        k < entries.len() ==> entries[k].addr == addr,
    ensures
        check_of(entries, addr, fingerprint) == if k == entries.len() {
            CheckModel::Unknown
        } else if entries[k].fingerprint == fingerprint {
            CheckModel::Match
        } else {
            CheckModel::Mismatch { expected: entries[k].fingerprint, actual: fingerprint }
        },
    decreases k,
{
    if k > 0 {
        let rest = entries.drop_first();
        assert(entries[0].addr != addr);
        assert forall|i: int| 0 <= i < k - 1 implies (#[trigger] rest[i]).addr != addr by {
            assert(rest[i] == entries[i + 1]);
        }
        law_first_entry_decides(rest, addr, fingerprint, k - 1);
    }
}

/// A host that is remembered takes the last place, no other entry for its address is left, and every
/// entry for another address stays as it was.
pub proof fn law_remembering_keeps_the_others(entries: Seq<EntryModel>, e: EntryModel)
    ensures
        added(entries, e).len() > 0,
        added(entries, e).last() == e,
        forall|i: int|
            0 <= i < added(entries, e).len() - 1 ==> (#[trigger] added(entries, e)[i]).addr != e.addr,
        forall|f: EntryModel|
            f.addr != e.addr ==> (#[trigger] added(entries, e).contains(f) <==> entries.contains(f)),
{
    lemma_without(entries, e.addr);
    let others = without(entries, e.addr);
    let all = added(entries, e);
    assert forall|f: EntryModel| f.addr != e.addr implies (#[trigger] all.contains(f)
        <==> entries.contains(f)) by {
        if all.contains(f) {
            let i = choose|i: int| 0 <= i < all.len() && all[i] == f;
            assert(others[i] == f);
            assert(others.contains(f));
        }
        if entries.contains(f) {
            assert(others.contains(f));
            let i = choose|i: int| 0 <= i < others.len() && others[i] == f;
            assert(all[i] == f);
        }
    }
}

proof fn lemma_without(entries: Seq<EntryModel>, addr: Seq<char>)
    ensures
        forall|i: int|
            0 <= i < without(entries, addr).len() ==> (#[trigger] without(entries, addr)[i]).addr
                != addr,
        forall|f: EntryModel|
            #[trigger] without(entries, addr).contains(f) <==> entries.contains(f) && f.addr != addr,
    decreases entries.len(),
{
    if entries.len() > 0 {
        let rest = entries.drop_first();
        lemma_without(rest, addr);
        let kept = without(rest, addr);
        let all = without(entries, addr);
        assert forall|f: EntryModel| entries.contains(f) <==> rest.contains(f) || f == entries[0] by {
            if entries.contains(f) {
                let i = choose|i: int| 0 <= i < entries.len() && entries[i] == f;
                if i > 0 {
                    assert(rest[i - 1] == f);
                }
            }
            if rest.contains(f) {
                let i = choose|i: int| 0 <= i < rest.len() && rest[i] == f;
                assert(entries[i + 1] == f);
            }
        }
        if entries[0].addr != addr {
            assert(all == seq![entries[0]] + kept);
            assert forall|f: EntryModel| #[trigger] all.contains(f) <==> kept.contains(f) || f
                == entries[0] by {
                if all.contains(f) {
                    let i = choose|i: int| 0 <= i < all.len() && all[i] == f;
                    if i > 0 {
                        assert(kept[i - 1] == f);
                    }
                }
                if kept.contains(f) {
                    let i = choose|i: int| 0 <= i < kept.len() && kept[i] == f;
                    assert(all[i + 1] == f);
                }
                if f == entries[0] {
                    assert(all[0] == f);
                }
            }
        }
    }
}

/// In the file every entry has a line of its own: its address, its fingerprint and its note, with a
/// space between each two.
pub proof fn law_file_has_a_line_for_each_entry(entries: Seq<EntryModel>, e: EntryModel)
    ensures
        saved_text(entries.push(e)) == (if entries.len() == 0 {
            Seq::empty()
        } else {
            saved_text(entries)
        }) + e.addr + seq![' '] + e.fingerprint + seq![' '] + e.accepted_at + seq!['\n'],
{
    lemma_entry_lines_push(entries, e);
    assert(saved_text(entries.push(e)) =~= (if entries.len() == 0 {
        Seq::empty()
    } else {
        saved_text(entries)
    }) + e.addr + seq![' '] + e.fingerprint + seq![' '] + e.accepted_at + seq!['\n']);
}

/// Comments, blank lines and lines of one word stand for no entry, whatever blanks stand around
/// them.
pub proof fn law_lines_without_an_entry(before: Seq<char>, line: Seq<char>, after: Seq<char>)
    requires
        crate::text::all_blank(before),
        crate::text::all_blank(after),
        line.len() > 0 ==> !crate::text::is_whitespace(line[0]) && !crate::text::is_whitespace(
            line.last(),
        ),
        line.len() == 0 || line[0] == '#' || !line.contains(' '),
    ensures
        line_entry(before + line + after) is None,
{
    crate::text::law_trim_takes_the_blanks_around(before, line, after);
    crate::text::law_split_first(line, ' ');
}

/// Blanks around the line of an entry do not change what it stands for.
pub proof fn law_blanks_around_a_line(before: Seq<char>, line: Seq<char>, after: Seq<char>)
    requires
        crate::text::all_blank(before),
        crate::text::all_blank(after),
        line.len() > 0 ==> !crate::text::is_whitespace(line[0]) && !crate::text::is_whitespace(
            line.last(),
        ),
    ensures
        line_entry(before + line + after) == line_entry(line),
{
    let nothing = Seq::<char>::empty();
    crate::text::law_trim_takes_the_blanks_around(before, line, after);
    crate::text::law_trim_takes_the_blanks_around(nothing, line, nothing);
    assert(nothing + line + nothing =~= line);
}

/// The lines of a file are read one by one, in their order.
pub proof fn law_files_are_read_line_by_line(first: Seq<char>, rest: Seq<char>)
    requires
        forall|i: int| 0 <= i < first.len() ==> first[i] != '\n',
    ensures
        entries_of(first + seq!['\n'] + rest) == (match line_entry(first) {
            Some(e) => seq![e],
            None => Seq::empty(),
        }) + entries_of(rest),
{
    lemma_one_line(first);
    lemma_split_joined(first, rest, '\n');
    let pieces = split_on(first + seq!['\n'] + rest, '\n');
    assert(pieces[0] == first);
    assert(pieces.drop_first() =~= split_on(rest, '\n'));
    assert(entries_of(first + seq!['\n'] + rest) =~= (match line_entry(first) {
        Some(e) => seq![e],
        None => Seq::empty(),
    }) + entries_of(rest));
}

/// A host is accepted by `y` or `yes` alone, in capitals or not, with any blanks around it.
pub proof fn law_only_yes_means_yes(before: Seq<char>, word: Seq<char>, after: Seq<char>)
    requires
        crate::text::all_blank(before),
        crate::text::all_blank(after),
        word.len() > 0 ==> !crate::text::is_whitespace(word[0]) && !crate::text::is_whitespace(
            word.last(),
        ),
    ensures
        means_yes(before + word + after) <==> (word.len() == 1 || word.len() == 3) && (word[0] == 'y'
            || word[0] == 'Y') && (word.len() == 3 ==> (word[1] == 'e' || word[1] == 'E') && (word[2]
            == 's' || word[2] == 'S')),
{
    crate::text::law_trim_takes_the_blanks_around(before, word, after);
}

/// The question before a host is accepted shows its address and its fingerprint.
pub proof fn law_question_shows_the_fingerprint(addr: Seq<char>, fingerprint: Seq<char>)
    ensures
        confirmation_prompt(addr, fingerprint) == "\nThe authenticity of host '["@ + addr
            + "]' can't be established.\nFingerprint: "@ + fingerprint
            + "\nAre you sure you want to continue connecting? (yes/no)\n"@,
{
}

/// What is loaded is what the text of the file says, and nothing without a file.
pub proof fn law_loading_reads_the_file(path: String, content: Option<&str>, r: KnownHosts)
    requires
        call_ensures(KnownHosts::load, (path, content), r),
    ensures
        content is None ==> r.known().len() == 0,
        content is Some ==> r.known() == entries_of(content->Some_0@),
        r.file() == path@,
{
}

/// A host that was added matches from then on with the fingerprint that was added, and with no
/// other.
pub proof fn law_adding_makes_known(
    hosts: &mut KnownHosts,
    addr: &str,
    fingerprint: &str,
    shown: Seq<char>,
)
    requires
        call_ensures(KnownHosts::add, (hosts, addr, fingerprint), ()),
    ensures
        check_of(final(hosts).known(), addr@, shown) is Match <==> shown == fingerprint@,
        !(check_of(final(hosts).known(), addr@, shown) is Unknown),
        final(hosts).known().last().addr == addr@,
        is_plain_note(final(hosts).known().last().accepted_at),
{
    let at = choose|at: Seq<char>|
        is_acceptance_note(at) && final(hosts).known() == #[trigger] added(
            old(hosts).known(),
            EntryModel { addr: addr@, fingerprint: fingerprint@, accepted_at: at },
        );
    let e = EntryModel { addr: addr@, fingerprint: fingerprint@, accepted_at: at };
    law_added_host_matches(old(hosts).known(), e, shown);
    law_acceptance_notes_are_plain(at);
}

} // verus!
