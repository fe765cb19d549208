//! Which program serves the account API.

use crate::text::{
    filled_parts, is_blank, opt_str, opt_view, parts, same, split_filled, trim, trimmed, views,
};
use vstd::prelude::*;

verus! {

/// How the app server is started.
#[derive(Debug)]
pub struct AppServerCommand {
    pub program: String,
    pub args: Vec<String>,
    pub explicit: bool,
}

/// What a command says.
pub ghost struct CommandModel {
    pub program: Seq<char>,
    pub args: Seq<Seq<char>>,
    pub explicit: bool,
}

impl View for AppServerCommand {
    type V = CommandModel;

    open spec fn view(&self) -> CommandModel {
        CommandModel {
            program: self.program@,
            args: views(self.args@),
            explicit: self.explicit,
        }
    }
}

/// The Codex CLI, which serves with a subcommand.
pub open spec fn codex_command(program: Seq<char>, explicit: bool) -> CommandModel {
    CommandModel { program, args: seq!["app-server"@], explicit }
}

/// A program that does nothing but serve.
pub open spec fn standalone_command(program: Seq<char>, explicit: bool) -> CommandModel {
    CommandModel { program, args: Seq::empty(), explicit }
}

/// The program and its arguments, separated by spaces.
pub open spec fn command_line(program: Seq<char>, args: Seq<Seq<char>>) -> Seq<char>
    decreases args.len(),
{
    if args.len() == 0 {
        program
    } else {
        command_line(program, args.drop_last()).push(' ') + args.last()
    }
}

impl AppServerCommand {
    /// The Codex CLI.
    pub fn codex(program: String, explicit: bool) -> (r: Self)
        ensures
            r@ == codex_command(program@, explicit),
    {
        let mut args: Vec<String> = Vec::new();
        args.push("app-server".to_owned());
        let r = AppServerCommand { program, args, explicit };
        assert(r@.args =~= seq!["app-server"@]);
        r
    }

    /// A program that does nothing but serve.
    pub fn standalone(program: String, explicit: bool) -> (r: Self)
        ensures
            r@ == standalone_command(program@, explicit),
    {
        let r = AppServerCommand { program, args: Vec::new(), explicit };
        assert(r@.args =~= Seq::<Seq<char>>::empty());
        r
    }

    /// The command as a user would write it.
    pub fn display_command(&self) -> (r: String)
        ensures
            r@ == command_line(self@.program, self@.args),
    {
        let mut out = self.program.as_str().to_owned();
        let mut i: usize = 0;
        assert(self@.args.take(0) =~= Seq::<Seq<char>>::empty());
        while i < self.args.len()
            invariant
                i <= self.args@.len(),
                out@ == command_line(self@.program, self@.args.take(i as int)),
            decreases self.args@.len() - i,
        {
            let ghost next = self@.args.take(i + 1);
            assert(next.drop_last() =~= self@.args.take(i as int));
            assert(next.last() == self.args@[i as int]@);
            out.push(' ');
            out.append(self.args[i].as_str());
            i += 1;
        }
        assert(self@.args.take(i as int) =~= self@.args);
        out
    }

    /// Whether the user named the program.
    pub fn is_explicit(&self) -> (r: bool)
        ensures
            r == self.explicit,
    {
        self.explicit
    }
}

/// What was found on the system: the Codex CLI on the search path, and an app server that an
/// installed application brings.
#[derive(Debug)]
pub struct FoundServers {
    pub codex_in_path: Option<String>,
    pub native: Option<AppServerCommand>,
}

/// Which program serves: the app server that the user named, the Codex CLI that the user named,
/// the Codex CLI on the search path, or what an application brings, in this order. An empty path
/// and a blank name name nothing.
pub open spec fn chosen_server(
    codex_bin: Option<Seq<char>>,
    app_server_bin: Option<Seq<char>>,
    codex_in_path: Option<Seq<char>>,
    native: Option<CommandModel>,
) -> Option<CommandModel> {
    if app_server_bin is Some && app_server_bin->0.len() > 0 {
        Some(standalone_command(app_server_bin->0, true))
    } else if codex_bin is Some && trimmed(codex_bin->0).len() > 0 {
        Some(codex_command(trimmed(codex_bin->0), true))
    } else if codex_in_path is Some {
        Some(codex_command(codex_in_path->0, false))
    } else {
        native
    }
}

/// What an optional command says.
pub open spec fn opt_command(c: Option<AppServerCommand>) -> Option<CommandModel> {
    match c {
        Some(c) => Some(c@),
        None => None,
    }
}

/// Chooses the program that serves.
pub fn resolve_app_server_command(
    codex_bin: Option<String>,
    app_server_bin: Option<String>,
    found: FoundServers,
) -> (r: Option<AppServerCommand>)
    ensures
        opt_command(r) == chosen_server(
            opt_view(codex_bin),
            opt_view(app_server_bin),
            opt_view(found.codex_in_path),
            opt_command(found.native),
        ),
{
    if let Some(path) = app_server_bin {
        if !same(path.as_str(), "") {
            proof {
                reveal_strlit("");
                assert(path@.len() > 0) by {
                    if path@.len() == 0 {
                        assert(path@ =~= ""@);
                    }
                }
            }
            return Some(AppServerCommand::standalone(path, true));
        }
        proof {
            reveal_strlit("");
        }
    }
    if let Some(bin) = codex_bin {
        if !is_blank(bin.as_str()) {
            return Some(AppServerCommand::codex(trim(bin.as_str()), true));
        }
    }
    if let Some(path) = found.codex_in_path {
        return Some(AppServerCommand::codex(path, false));
    }
    found.native
}

/// A program that the user names is taken, whatever is found on the system, and is explicit;
/// nothing else is.
pub proof fn named_server_is_taken(
    codex_bin: Option<Seq<char>>,
    app_server_bin: Option<Seq<char>>,
    codex_in_path: Option<Seq<char>>,
    native: Option<CommandModel>,
)
    requires
        native is Some ==> !native->0.explicit,
    ensures
        ({
            let named = (app_server_bin is Some && app_server_bin->0.len() > 0) || (codex_bin is Some
                && trimmed(codex_bin->0).len() > 0);
            let c = chosen_server(codex_bin, app_server_bin, codex_in_path, native);
            &&& c is Some && c->0.explicit <==> named
            &&& named ==> c == chosen_server(codex_bin, app_server_bin, None, None)
        }),
{
}

/// Which server a file of a native application is, by its name: the Codex CLI or a standalone
/// server, whose name may be written in any case.
#[derive(Debug, Clone, Copy, PartialEq, Eq, Structural)]
pub enum NativeServer {
    Codex,
    Standalone,
}

/// An ASCII letter as a small one; any other character as it is.
pub open spec fn ascii_lower(c: char) -> char {
    if 'A' <= c <= 'Z' {
        (c as u8 + 32) as char
    } else {
        c
    }
}

/// Two texts that differ at most in the case of ASCII letters.
pub open spec fn same_ignoring_ascii_case(a: Seq<char>, b: Seq<char>) -> bool {
    a.len() == b.len() && forall|i: int|
        0 <= i < a.len() ==> ascii_lower(#[trigger] a[i]) == ascii_lower(b[i])
}

fn lower_ascii(c: char) -> (r: char)
    ensures
        r == ascii_lower(c),
{
    if 'A' <= c && c <= 'Z' {
        (c as u8 + 32) as char
    } else {
        c
    }
}

fn eq_ignoring_ascii_case(a: &str, b: &str) -> (r: bool)
    ensures
        r == same_ignoring_ascii_case(a@, b@),
{
    let x = crate::text::chars_of(a);
    let y = crate::text::chars_of(b);
    if x.len() != y.len() {
        return false;
    }
    let mut i: usize = 0;
    while i < x.len()
        invariant
            i <= x@.len(),
            x@ == a@,
            y@ == b@,
            x@.len() == y@.len(),
            forall|k: int| 0 <= k < i ==> ascii_lower(#[trigger] x@[k]) == ascii_lower(y@[k]),
        decreases x@.len() - i,
    {
        if lower_ascii(x[i]) != lower_ascii(y[i]) {
            assert(ascii_lower(a@[i as int]) != ascii_lower(b@[i as int]));
            return false;
        }
        i += 1;
    }
    true
}

/// Which server a file is, by its name.
pub fn native_server(file_name: &str) -> (r: Option<NativeServer>)
    ensures
        r == (if file_name@ == "codex.exe"@ {
            Some(NativeServer::Codex)
        } else if same_ignoring_ascii_case(file_name@, "app-server.exe"@)
            || same_ignoring_ascii_case(file_name@, "codex-app-server.exe"@) {
            Some(NativeServer::Standalone)
        } else {
            None
        }),
{
    if same(file_name, "codex.exe") {
        Some(NativeServer::Codex)
    } else if eq_ignoring_ascii_case(file_name, "app-server.exe") || eq_ignoring_ascii_case(
        file_name,
        "codex-app-server.exe",
    ) {
        Some(NativeServer::Standalone)
    } else {
        None
    }
}

/// A search for a native server goes at most this many directories down.
pub const MAX_SEARCH_DEPTH: usize = 6;

/// A search for a native server looks at fewer entries than this.
pub const MAX_SEARCH_ENTRIES: usize = 2048;

/// Whether a search enters a directory.
pub fn may_search(depth: usize, visited_entries: usize) -> (r: bool)
    ensures
        r == (depth <= MAX_SEARCH_DEPTH && visited_entries < MAX_SEARCH_ENTRIES),
{
    depth <= MAX_SEARCH_DEPTH && visited_entries < MAX_SEARCH_ENTRIES
}

/// Counts one more entry; none where the search ends before that entry is looked at.
pub fn visit_entry(visited_entries: usize) -> (r: Option<usize>)
    ensures
        r == (if visited_entries + 1 < MAX_SEARCH_ENTRIES {
            Some((visited_entries + 1) as usize)
        } else {
            None::<usize>
        }),
{
    if visited_entries < MAX_SEARCH_ENTRIES - 1 {
        Some(visited_entries + 1)
    } else {
        None
    }
}

/// The endings of programs on a system that finds them by their endings.
pub open spec fn endings(pathext: Option<Seq<char>>) -> Seq<Seq<char>> {
    let listed = match pathext {
        Some(list) => filled_parts(parts(list, ';')),
        None => Seq::empty(),
    };
    if listed.len() == 0 {
        seq![".exe"@, ".cmd"@, ".bat"@, ".com"@]
    } else {
        listed
    }
}

/// The names under which a program may be found in a directory: its own, or its own with each of
/// the endings where the system goes by endings and the name has none.
pub open spec fn program_names(
    command: Seq<char>,
    by_ending: bool,
    has_ending: bool,
    pathext: Option<Seq<char>>,
) -> Seq<Seq<char>> {
    if !by_ending || has_ending {
        seq![command]
    } else {
        endings(pathext).map_values(|e: Seq<char>| command + e)
    }
}

fn program_endings(pathext: Option<&str>) -> (r: Vec<String>)
    ensures
        views(r@) == endings(opt_str(pathext)),
{
    let listed = match pathext {
        Some(list) => split_filled(list, ';'),
        None => Vec::new(),
    };
    if listed.len() > 0 {
        return listed;
    }
    let mut usual: Vec<String> = Vec::new();
    usual.push(".exe".to_owned());
    usual.push(".cmd".to_owned());
    usual.push(".bat".to_owned());
    usual.push(".com".to_owned());
    assert(views(usual@) =~= seq![".exe"@, ".cmd"@, ".bat"@, ".com"@]);
    usual
}

/// The names under which a program may be found in a directory.
pub fn command_candidates(
    command: &str,
    by_ending: bool,
    has_ending: bool,
    pathext: Option<&str>,
) -> (r: Vec<String>)
    ensures
        views(r@) == program_names(command@, by_ending, has_ending, opt_str(pathext)),
{
    let ghost want = program_names(command@, by_ending, has_ending, opt_str(pathext));
    let mut names: Vec<String> = Vec::new();
    if !by_ending || has_ending {
        names.push(command.to_owned());
        assert(views(names@) =~= want);
        return names;
    }
    let list = program_endings(pathext);
    let mut i: usize = 0;
    assert(views(names@) =~= want.take(0));
    while i < list.len()
        invariant
            i <= list@.len(),
            want.len() == list@.len(),
            forall|j: int| 0 <= j < list@.len() ==> #[trigger] want[j] == command@ + list@[j]@,
            views(names@) == want.take(i as int),
        decreases list@.len() - i,
    {
        let ghost before = names@;
        let mut name = command.to_owned();
        name.append(list[i].as_str());
        names.push(name);
        assert(views(names@) =~= views(before).push(want[i as int]));
        assert(want.take(i as int).push(want[i as int]) =~= want.take(i + 1));
        i += 1;
    }
    assert(want.take(i as int) =~= want);
    names
}

} // verus!
