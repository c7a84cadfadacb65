//! Settings of the Google Sheets and Slides comment poller.

use vstd::prelude::*;
use crate::channel::Channel;
use crate::text::{opt_str, strs, trim, contains, split_parts};
use crate::google_drive_changes::{flag_on, seconds_setting};

verus! {

/// Kind of Google Workspace file.
#[derive(Debug, Clone, Copy, PartialEq, Eq, Structural)]
pub enum WorkspaceFileType {
    Sheets,
    Slides,
}

impl WorkspaceFileType {
    /// The channel comments on such files arrive on.
    pub fn channel(&self) -> (r: Channel)
        ensures
            r == (match *self {
                WorkspaceFileType::Sheets => Channel::GoogleSheets,
                WorkspaceFileType::Slides => Channel::GoogleSlides,
            }),
    {
        match self {
            WorkspaceFileType::Sheets => Channel::GoogleSheets,
            WorkspaceFileType::Slides => Channel::GoogleSlides,
        }
    }

    /// Short name, as stored.
    pub fn name(&self) -> (r: &'static str)
        ensures
            r@ == (match *self {
                WorkspaceFileType::Sheets => "sheets"@,
                WorkspaceFileType::Slides => "slides"@,
            }),
    {
        match self {
            WorkspaceFileType::Sheets => "sheets",
            WorkspaceFileType::Slides => "slides",
        }
    }

    /// Name shown to people.
    pub fn display_name(&self) -> (r: &'static str)
        ensures
            r@ == (match *self {
                WorkspaceFileType::Sheets => "Google Sheets"@,
                WorkspaceFileType::Slides => "Google Slides"@,
            }),
    {
        match self {
            WorkspaceFileType::Sheets => "Google Sheets",
            WorkspaceFileType::Slides => "Google Slides",
        }
    }
}

/// Settings of the poller. The employee addresses hold no duplicates.
#[derive(Debug, Clone)]
pub struct GoogleWorkspacePollerConfig {
    pub poll_interval_secs: u64,
    pub sheets_enabled: bool,
    pub slides_enabled: bool,
    pub employee_emails: Vec<String>,
    pub workspace_root: String,
    pub processed_db_path: String,
    pub employee_id: String,
}

/// What `str::to_lowercase` makes of a text (full Unicode lower-casing).
pub uninterp spec fn unicode_lower(s: Seq<char>) -> Seq<char>;

/// `str::to_lowercase`.
#[verifier::external_body]
pub(crate) fn lowercase(s: &str) -> (r: String)
    ensures
        r@ == unicode_lower(s@),
{
    s.to_lowercase()
}

/// The addresses always known to belong to employees.
pub open spec fn builtin_employee_emails() -> Seq<Seq<char>> {
    seq!["oliver@dowhiz.com"@, "proto@dowhiz.com"@, "maggie@dowhiz.com"@, "little-bear@dowhiz.com"@]
}

/// An extra address is kept when, trimmed and lower-cased, it is not empty
/// and holds an `@`.
pub open spec fn email_ok(e: Seq<char>) -> bool {
    unicode_lower(trim(e)).len() > 0 && contains(unicode_lower(trim(e)), "@"@)
}

/// Adds `x` to a duplicate-free list unless it is there already.
pub open spec fn set_insert(s: Seq<Seq<char>>, x: Seq<char>) -> Seq<Seq<char>> {
    if s.contains(x) {
        s
    } else {
        s.push(x)
    }
}

/// The employee addresses: the built-in ones, then each acceptable extra
/// address once.
pub open spec fn employee_emails(base: Seq<Seq<char>>, parts: Seq<Seq<char>>) -> Seq<Seq<char>>
    decreases parts.len(),
{
    if parts.len() == 0 {
        base
    } else {
        let r = employee_emails(base, parts.drop_last());
        if email_ok(parts.last()) {
            set_insert(r, unicode_lower(trim(parts.last())))
        } else {
            r
        }
    }
}

pub open spec fn no_duplicates(s: Seq<Seq<char>>) -> bool {
    forall|i: int, j: int| 0 <= i < j < s.len() ==> s[i] != s[j]
}

/// The employee addresses hold no address twice when the base list does not.
pub proof fn lemma_employee_emails_distinct(base: Seq<Seq<char>>, parts: Seq<Seq<char>>)
    requires
        no_duplicates(base),
    ensures
        no_duplicates(employee_emails(base, parts)),
    decreases parts.len(),
{
    if parts.len() > 0 {
        lemma_employee_emails_distinct(base, parts.drop_last());
        let r = employee_emails(base, parts.drop_last());
        let x = unicode_lower(trim(parts.last()));
        if email_ok(parts.last()) && !r.contains(x) {
            assert forall|i: int, j: int| 0 <= i < j < r.push(x).len() implies r.push(x)[i] != r.push(x)[j] by {
                if j == r.len() {
                    assert(r.push(x)[i] == r[i]);
                }
            }
        }
    }
}

impl Default for GoogleWorkspacePollerConfig {
    /// Polling every 30 seconds with both Sheets and Slides off, no employee
    /// addresses, workspaces under `workspaces`, for the `proto` employee.
    fn default() -> (r: Self)
        ensures
            r.poll_interval_secs == 30,
            !r.sheets_enabled,
            !r.slides_enabled,
            r.employee_emails@.len() == 0,
            r.workspace_root@ == "workspaces"@,
            r.processed_db_path@ == "google_workspace_processed.db"@,
            r.employee_id@ == "proto"@,
    {
        GoogleWorkspacePollerConfig {
            poll_interval_secs: 30,
            sheets_enabled: false,
            slides_enabled: false,
            employee_emails: Vec::new(),
            workspace_root: crate::text::owned("workspaces"),
            processed_db_path: crate::text::owned("google_workspace_processed.db"),
            employee_id: crate::text::owned("proto"),
        }
    }
}

impl GoogleWorkspacePollerConfig {
    /// The configuration from its raw settings; `workspace_root` and
    /// `processed_db_path` are given already resolved.
    pub fn from_settings(
        sheets_enabled: Option<String>,
        slides_enabled: Option<String>,
        poll_interval_secs: Option<String>,
        extra_emails: Option<String>,
        workspace_root: String,
        processed_db_path: String,
        employee_id: Option<String>,
    ) -> (r: Self)
        ensures
            r.sheets_enabled == flag_on(opt_str(sheets_enabled)),
            r.slides_enabled == flag_on(opt_str(slides_enabled)),
            r.poll_interval_secs == seconds_setting(opt_str(poll_interval_secs), 30),
            strs(r.employee_emails@) == (match extra_emails {
                Some(e) => employee_emails(builtin_employee_emails(), split_parts(e@, ',')),
                None => builtin_employee_emails(),
            }),
            no_duplicates(strs(r.employee_emails@)),
            r.workspace_root == workspace_root,
            r.processed_db_path == processed_db_path,
            r.employee_id@ == (match employee_id {
                Some(e) => e@,
                None => "proto"@,
            }),
    {
        let sheets = crate::google_drive_changes::flag_enabled(&sheets_enabled);
        let slides = crate::google_drive_changes::flag_enabled(&slides_enabled);
        let interval = match &poll_interval_secs {
            Some(s) => match crate::number::parse_u64(s.as_str()) {
                Some(n) => n,
                None => 30,
            },
            None => 30,
        };
        let mut emails: Vec<String> = vec![
            crate::text::owned("oliver@dowhiz.com"),
            crate::text::owned("proto@dowhiz.com"),
            crate::text::owned("maggie@dowhiz.com"),
            crate::text::owned("little-bear@dowhiz.com"),
        ];
        proof {
            assert(strs(emails@) =~= builtin_employee_emails());
            reveal_strlit("oliver@dowhiz.com");
            reveal_strlit("proto@dowhiz.com");
            reveal_strlit("maggie@dowhiz.com");
            reveal_strlit("little-bear@dowhiz.com");
            assert(no_duplicates(builtin_employee_emails())) by {
                let b = builtin_employee_emails();
                assert(b[0][0] != b[1][0]);
                assert(b[0][0] != b[2][0]);
                assert(b[0][0] != b[3][0]);
                assert(b[1][0] != b[2][0]);
                assert(b[1][0] != b[3][0]);
                assert(b[2][0] != b[3][0]);
            }
        }
        if let Some(extra) = &extra_emails {
            let parts = crate::text::split_on(extra.as_str(), ',');
            let ghost ps = strs(parts@);
            let mut i: usize = 0;
            proof {
                assert(ps.take(0) =~= Seq::<Seq<char>>::empty());
            }
            while i < parts.len()
                invariant
                    i <= parts@.len(),
                    ps == strs(parts@),
                    strs(emails@) == employee_emails(builtin_employee_emails(), ps.take(i as int)),
                decreases parts@.len() - i,
            {
                proof {
                    let t = ps.take(i + 1);
                    assert(t.drop_last() =~= ps.take(i as int));
                    assert(t.last() == ps[i as int]);
                }
                let trimmed = crate::text::trim_str(parts[i].as_str());
                let lowered = lowercase(trimmed.as_str());
                if !lowered.as_str().is_empty() && crate::text::str_contains(lowered.as_str(), "@") {
                    if !crate::text::contains_string(&emails, lowered.as_str()) {
                        emails.push(lowered);
                        proof {
                            assert(strs(emails@) =~= strs(emails@).drop_last().push(unicode_lower(trim(ps[i as int]))));
                        }
                    }
                }
                i = i + 1;
            }
            proof {
                assert(ps.take(parts@.len() as int) =~= ps);
            }
        }
        proof {
            match extra_emails {
                Some(e) => lemma_employee_emails_distinct(builtin_employee_emails(), split_parts(e@, ',')),
                None => {},
            }
        }
        let employee = match employee_id {
            Some(e) => e,
            None => crate::text::owned("proto"),
        };
        GoogleWorkspacePollerConfig {
            poll_interval_secs: interval,
            sheets_enabled: sheets,
            slides_enabled: slides,
            employee_emails: emails,
            workspace_root,
            processed_db_path,
            employee_id: employee,
        }
    }

    /// Polling is on for at least one kind of file.
    pub fn is_enabled(&self) -> (r: bool)
        ensures
            r == (self.sheets_enabled || self.slides_enabled),
    {
        self.sheets_enabled || self.slides_enabled
    }
}

/// Files to report from one poll: in listing order, each whose comments
/// could be listed and left at least one actionable comment, with how many.
pub open spec fn files_with_actionable(files: Seq<Seq<char>>, actionable: Seq<Option<usize>>) -> Seq<(Seq<char>, usize)>
    decreases files.len(),
{
    if files.len() == 0 || actionable.len() < files.len() {
        Seq::empty()
    } else {
        let prev = files_with_actionable(files.drop_last(), actionable.take(files.len() - 1));
        match actionable[files.len() - 1] {
            Some(n) => if n > 0 { prev.push((files.last(), n)) } else { prev },
            None => prev,
        }
    }
}

/// The files a poll reports (none when the file type is off): `actionable[i]`
/// is the number of actionable comments of `files[i]`, or `None` when its
/// comments could not be listed; both lists have one entry per listed file.
pub fn files_with_comments(enabled: bool, files: Vec<String>, actionable: Vec<Option<usize>>) -> (r: Vec<(String, usize)>)
    requires
        files@.len() == actionable@.len(),
    ensures
        !enabled ==> r@.len() == 0,
        enabled ==> r@.map_values(|p: (String, usize)| (p.0@, p.1)) == files_with_actionable(strs(files@), actionable@),
{
    let mut out: Vec<(String, usize)> = Vec::new();
    if !enabled {
        return out;
    }
    let mut i: usize = 0;
    while i < files.len()
        invariant
            i <= files@.len(),
            files@.len() == actionable@.len(),
            out@.map_values(|p: (String, usize)| (p.0@, p.1)) == files_with_actionable(
                strs(files@).take(i as int),
                actionable@.take(i as int),
            ),
        decreases files@.len() - i,
    {
        let ghost before = out@.map_values(|p: (String, usize)| (p.0@, p.1));
        proof {
            let fs = strs(files@).take(i + 1);
            let acts = actionable@.take(i + 1);
            assert(fs.drop_last() =~= strs(files@).take(i as int));
            assert(acts.take(fs.len() - 1) =~= actionable@.take(i as int));
            assert(fs.last() == files@[i as int]@);
            assert(acts[fs.len() - 1] == actionable@[i as int]);
        }
        match actionable[i] {
            Some(n) => {
                if n > 0 {
                    out.push((files[i].clone(), n));
                    proof {
                        assert(out@.map_values(|p: (String, usize)| (p.0@, p.1)) =~= before.push((files@[i as int]@, n)));
                    }
                }
            },
            None => {},
        }
        i = i + 1;
    }
    proof {
        assert(strs(files@).take(files@.len() as int) =~= strs(files@));
        assert(actionable@.take(files@.len() as int) =~= actionable@);
    }
    out
}

/// The e-mail address a file is registered under: that of its first owner,
/// when it has one.
pub fn owner_email(owner_emails: &Vec<Option<String>>) -> (r: Option<String>)
    ensures
        opt_str(r) == (if owner_emails@.len() > 0 { opt_str(owner_emails@[0]) } else { None }),
{
    if owner_emails.len() > 0 {
        match &owner_emails[0] {
            Some(e) => Some(e.clone()),
            None => None,
        }
    } else {
        None
    }
}

} // verus!
