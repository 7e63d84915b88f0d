//! The scripts by which the program shows a notification, sits in the tray and
//! starts with the system, and the templates that it prints.

use vstd::prelude::*;
use vstd::string::*;

use crate::paths::Platform;
use crate::shell::CommandLine;
use crate::text::{opt_str, replaced, texts};
use crate::text::{is_text, push_text, push_two, replace_char};

verus! {

/// `s` as it stands between two of the quotes `quote` in a script: every quote
/// in it is written twice.
pub open spec fn doubled(s: Seq<char>, quote: char) -> Seq<char> {
    replaced(s, quote, seq![quote, quote])
}

fn double_single(s: &str) -> (r: String)
    ensures
        r@ == doubled(s@, '\''),
{
    proof {
        reveal_strlit("''");
        assert("''"@ =~= seq!['\'', '\'']);
    }
    replace_char(s, '\'', "''")
}

fn double_double(s: &str) -> (r: String)
    ensures
        r@ == doubled(s@, '"'),
{
    proof {
        reveal_strlit("\"\"");
        assert("\"\""@ =~= seq!['"', '"']);
    }
    replace_char(s, '"', "\"\"")
}

/// The script that shows a notification.
pub open spec fn notification(title: Seq<char>, body: Seq<char>) -> Seq<char> {
    "$wshell=New-Object -ComObject Wscript.Shell;$wshell.Popup('"@ + doubled(body, '\'')
        + "',3,'"@ + doubled(title, '\'') + "',64)|Out-Null"@
}

/// The command that shows a notification. There is none on a platform other
/// than Windows.
pub fn send_notification(platform: Platform, title: &str, body: &str) -> (r: Option<CommandLine>)
    ensures
        match platform {
            Platform::Windows => r is Some && r->0.words() == seq![
                "powershell.exe"@,
                "-NoProfile"@,
                "-WindowStyle"@,
                "Hidden"@,
                "-Command"@,
                notification(title@, body@),
            ],
            Platform::Unix => r is None,
        },
{
    match platform {
        Platform::Windows => {
            let mut script =
                "$wshell=New-Object -ComObject Wscript.Shell;$wshell.Popup('".to_owned();
            script.append(double_single(body).as_str());
            script.append("',3,'");
            script.append(double_single(title).as_str());
            script.append("',64)|Out-Null");
            let mut args: Vec<String> = Vec::new();
            push_text(&mut args, "-NoProfile");
            push_two(&mut args, "-WindowStyle", "Hidden");
            push_two(&mut args, "-Command", script.as_str());
            let line = CommandLine { program: "powershell.exe".to_owned(), args };
            assert(line.words() =~= seq![
                "powershell.exe"@,
                "-NoProfile"@,
                "-WindowStyle"@,
                "Hidden"@,
                "-Command"@,
                notification(title@, body@),
            ]);
            Some(line)
        },
        Platform::Unix => None,
    }
}

/// The script that sits in the tray, and starts the program `exe` from there.
pub open spec fn tray(exe: Seq<char>) -> Seq<char> {
    "
Add-Type -AssemblyName System.Windows.Forms
$icon = New-Object System.Windows.Forms.NotifyIcon
$icon.Text = 'Auto File Manager'
$icon.Icon = [System.Drawing.SystemIcons]::Application
$menu = New-Object System.Windows.Forms.ContextMenuStrip
$status = $menu.Items.Add('Status')
$status.add_Click({ Start-Process -FilePath '"@
        + exe + "' -ArgumentList 'status' })
$resume = $menu.Items.Add('Resume')
$resume.add_Click({ Start-Process -FilePath '"@
        + exe + "' -ArgumentList 'resume' -WindowStyle Hidden })
$doctor = $menu.Items.Add('Doctor')
$doctor.add_Click({ Start-Process -FilePath '"@
        + exe + "' -ArgumentList 'doctor' })
$exit = $menu.Items.Add('Exit Tray')
$exit.add_Click({ $icon.Visible = $false; [System.Windows.Forms.Application]::Exit() })
$icon.ContextMenuStrip = $menu
$icon.Visible = $true
[System.Windows.Forms.Application]::Run()
"@
}

/// The script that sits in the tray, and starts the program `exe` from there.
pub fn tray_script(exe: &str) -> (r: String)
    ensures
        r@ == tray(exe@),
{
    let mut out = "
Add-Type -AssemblyName System.Windows.Forms
$icon = New-Object System.Windows.Forms.NotifyIcon
$icon.Text = 'Auto File Manager'
$icon.Icon = [System.Drawing.SystemIcons]::Application
$menu = New-Object System.Windows.Forms.ContextMenuStrip
$status = $menu.Items.Add('Status')
$status.add_Click({ Start-Process -FilePath '".to_owned();
    out.append(exe);
    out.append(
        "' -ArgumentList 'status' })
$resume = $menu.Items.Add('Resume')
$resume.add_Click({ Start-Process -FilePath '",
    );
    out.append(exe);
    out.append(
        "' -ArgumentList 'resume' -WindowStyle Hidden })
$doctor = $menu.Items.Add('Doctor')
$doctor.add_Click({ Start-Process -FilePath '",
    );
    out.append(exe);
    out.append(
        "' -ArgumentList 'doctor' })
$exit = $menu.Items.Add('Exit Tray')
$exit.add_Click({ $icon.Visible = $false; [System.Windows.Forms.Application]::Exit() })
$icon.ContextMenuStrip = $menu
$icon.Visible = $true
[System.Windows.Forms.Application]::Run()
",
    );
    out
}

/// The command that runs the script of the tray, which is at `script_path`.
pub fn launch_tray(script_path: &str) -> (r: CommandLine)
    ensures
        r.words() == seq![
            "powershell.exe"@,
            "-NoProfile"@,
            "-ExecutionPolicy"@,
            "Bypass"@,
            "-WindowStyle"@,
            "Hidden"@,
            "-File"@,
            script_path@,
        ],
{
    let mut args: Vec<String> = Vec::new();
    push_text(&mut args, "-NoProfile");
    push_two(&mut args, "-ExecutionPolicy", "Bypass");
    push_two(&mut args, "-WindowStyle", "Hidden");
    push_two(&mut args, "-File", script_path);
    let line = CommandLine { program: "powershell.exe".to_owned(), args };
    assert(line.words() =~= seq![
        "powershell.exe"@,
        "-NoProfile"@,
        "-ExecutionPolicy"@,
        "Bypass"@,
        "-WindowStyle"@,
        "Hidden"@,
        "-File"@,
        script_path@,
    ]);
    line
}

/// The script that the system runs at login, which has the program `exe` start
/// its daemons again.
pub open spec fn startup(exe: Seq<char>) -> Seq<char> {
    "Set shell = CreateObject(\"WScript.Shell\")\r\nshell.Run \"cmd.exe /d /c \"\""@ + doubled(
        exe,
        '"',
    ) + "\"\" resume\", 0, False\r\n"@
}

/// The script that the system runs at login, which has the program `exe` start
/// its daemons again.
pub fn startup_script(exe: &str) -> (r: String)
    ensures
        r@ == startup(exe@),
{
    let mut out =
        "Set shell = CreateObject(\"WScript.Shell\")\r\nshell.Run \"cmd.exe /d /c \"\"".to_owned();
    out.append(double_double(exe).as_str());
    out.append("\"\" resume\", 0, False\r\n");
    out
}

/// The command that the system is given to run the script at `script_path`.
pub fn handle_startup(script_path: &str) -> (r: String)
    ensures
        r@ == "wscript.exe //B //Nologo \""@ + script_path@ + "\""@,
{
    let mut out = "wscript.exe //B //Nologo \"".to_owned();
    out.append(script_path);
    out.append("\"");
    out
}

/// The command line of a template, or the names of all templates for any other
/// name or none.
pub open spec fn template(name: Option<Seq<char>>) -> Seq<Seq<char>> {
    if name == Some("downloads-cleanup"@) {
        seq![
            "afm clean ~/Downloads --older-than 30d --move-to ~/Archive --empty-dirs --name downloads-cleanup"@,
        ]
    } else if name == Some("zip-extractor"@) {
        seq!["afm unzip ~/Downloads --name zip-extractor --on-conflict rename"@]
    } else if name == Some("photos-backup"@) {
        seq!["afm mirror ~/Pictures D:\\PhotoBackup --name photos-backup"@]
    } else if name == Some("school-folder-sort"@) {
        seq![
            "afm sort ~/Downloads --rule \"*.pdf=~/Documents/School\" --rule \"*.docx=~/Documents/School\" --name school-sort"@,
        ]
    } else {
        seq!["downloads-cleanup"@, "zip-extractor"@, "photos-backup"@, "school-folder-sort"@]
    }
}

/// The command line of a template, or the names of all templates for any other
/// name or none.
pub fn show_template(name: Option<&str>) -> (r: Vec<String>)
    ensures
        texts(r@) == template(opt_str(name)),
{
    let mut out: Vec<String> = Vec::new();
    if is_text(name, "downloads-cleanup") {
        push_text(
            &mut out,
            "afm clean ~/Downloads --older-than 30d --move-to ~/Archive --empty-dirs --name downloads-cleanup",
        );
    } else if is_text(name, "zip-extractor") {
        push_text(&mut out, "afm unzip ~/Downloads --name zip-extractor --on-conflict rename");
    } else if is_text(name, "photos-backup") {
        push_text(&mut out, "afm mirror ~/Pictures D:\\PhotoBackup --name photos-backup");
    } else if is_text(name, "school-folder-sort") {
        push_text(
            &mut out,
            "afm sort ~/Downloads --rule \"*.pdf=~/Documents/School\" --rule \"*.docx=~/Documents/School\" --name school-sort",
        );
    } else {
        push_two(&mut out, "downloads-cleanup", "zip-extractor");
        push_two(&mut out, "photos-backup", "school-folder-sort");
    }
    assert(texts(out@) =~= template(opt_str(name)));
    out
}

/// What is read of a script behind an opening quote: the text up to the
/// closing quote, where two quotes stand for one, and what follows.
pub open spec fn read_literal(t: Seq<char>, quote: char) -> Option<(Seq<char>, Seq<char>)>
    decreases t.len(),
{
    if t.len() == 0 {
        None
    } else if t[0] != quote {
        match read_literal(t.skip(1), quote) {
            Some((text, rest)) => Some((seq![t[0]] + text, rest)),
            None => None,
        }
    } else if t.len() > 1 && t[1] == quote {
        match read_literal(t.skip(2), quote) {
            Some((text, rest)) => Some((seq![quote] + text, rest)),
            None => None,
        }
    } else {
        Some((seq![], t.skip(1)))
    }
}

/// Replacing begins with the first character.
proof fn lemma_replaced_first(s: Seq<char>, from: char, to: Seq<char>)
    requires
        s.len() > 0,
    ensures
        replaced(s, from, to) == (if s[0] == from {
            to
        } else {
            seq![s[0]]
        }) + replaced(s.skip(1), from, to),
    decreases s.len(),
{
    let first = if s[0] == from {
        to
    } else {
        seq![s[0]]
    };
    if s.len() == 1 {
        assert(s.drop_last() =~= seq![]);
        assert(s.skip(1) =~= seq![]);
        assert(replaced(seq![], from, to) =~= seq![]);
        assert(replaced(s, from, to) =~= first + seq![]);
    } else {
        let front = s.drop_last();
        lemma_replaced_first(front, from, to);
        assert(s.skip(1).drop_last() =~= front.skip(1));
        let last = if s.last() == from {
            to
        } else {
            seq![s.last()]
        };
        assert(replaced(s, from, to) =~= first + (replaced(front.skip(1), from, to) + last));
    }
}

/// A text whose quotes were doubled is read as it was, up to the quote behind
/// it.
pub proof fn doubling_is_undone(s: Seq<char>, quote: char, rest: Seq<char>)
    requires
        rest.len() == 0 || rest[0] != quote,
    ensures
        read_literal(doubled(s, quote) + seq![quote] + rest, quote) == Some((s, rest)),
    decreases s.len(),
{
    let t = doubled(s, quote) + seq![quote] + rest;
    if s.len() == 0 {
        assert(t =~= seq![quote] + rest);
        assert(t.skip(1) =~= rest);
        assert(s =~= seq![]);
    } else {
        lemma_replaced_first(s, quote, seq![quote, quote]);
        doubling_is_undone(s.skip(1), quote, rest);
        let tail = doubled(s.skip(1), quote) + seq![quote] + rest;
        if s[0] == quote {
            assert(t =~= seq![quote, quote] + tail);
            assert(t.skip(2) =~= tail);
        } else {
            assert(t =~= seq![s[0]] + tail);
            assert(t.skip(1) =~= tail);
        }
        assert(seq![s[0]] + s.skip(1) =~= s);
    }
}

/// The notification shows the text and the title that were asked for, whatever
/// quotes they hold: the one is read behind the first quote of the script, the
/// other behind the next opening quote.
pub proof fn notification_shows_both_texts(title: Seq<char>, body: Seq<char>)
    ensures
        ({
            let head = "$wshell=New-Object -ComObject Wscript.Shell;$wshell.Popup('"@;
            let behind = doubled(title, '\'') + "',64)|Out-Null"@;
            &&& head.is_prefix_of(notification(title, body))
            &&& read_literal(notification(title, body).skip(head.len() as int), '\'') == Some(
                (body, ",3,'"@ + behind),
            )
            &&& read_literal(behind, '\'') == Some((title, ",64)|Out-Null"@))
        }),
{
    reveal_strlit("',3,'");
    reveal_strlit(",3,'");
    reveal_strlit("',64)|Out-Null");
    reveal_strlit(",64)|Out-Null");
    let q = seq!['\''];
    let end = ",64)|Out-Null"@;
    let behind = doubled(title, '\'') + "',64)|Out-Null"@;
    assert("',64)|Out-Null"@ =~= q + end);
    assert(behind =~= doubled(title, '\'') + q + end);
    assert(end[0] == ',');
    doubling_is_undone(title, '\'', end);
    let more = ",3,'"@ + behind;
    assert(more[0] == ',');
    assert("',3,'"@ =~= q + ",3,'"@);
    doubling_is_undone(body, '\'', more);
    let head = "$wshell=New-Object -ComObject Wscript.Shell;$wshell.Popup('"@;
    let rest = doubled(body, '\'') + q + more;
    assert(notification(title, body) =~= head + rest);
    assert((head + rest).skip(head.len() as int) =~= rest);
    assert((head + rest).subrange(0, head.len() as int) =~= head);
}

/// The script at login runs the program, whose path stands between double
/// quotes, with the word `resume`, whatever quotes the path holds.
pub proof fn startup_runs_resume(exe: Seq<char>)
    ensures
        ({
            let head = "Set shell = CreateObject(\"WScript.Shell\")\r\nshell.Run \""@;
            &&& head.is_prefix_of(startup(exe))
            &&& read_literal(startup(exe).skip(head.len() as int), '"') == Some(
                ("cmd.exe /d /c \""@ + exe + "\" resume"@, ", 0, False\r\n"@),
            )
        }),
{
    reveal_strlit("Set shell = CreateObject(\"WScript.Shell\")\r\nshell.Run \"cmd.exe /d /c \"\"");
    reveal_strlit("Set shell = CreateObject(\"WScript.Shell\")\r\nshell.Run \"");
    reveal_strlit("cmd.exe /d /c \"");
    reveal_strlit("cmd.exe /d /c ");
    reveal_strlit("\" resume");
    reveal_strlit(" resume");
    reveal_strlit("\"\" resume\", 0, False\r\n");
    reveal_strlit(", 0, False\r\n");
    let quote = '"';
    let head = "Set shell = CreateObject(\"WScript.Shell\")\r\nshell.Run \""@;
    let a = "cmd.exe /d /c \""@;
    let b = "\" resume"@;
    let rest = ", 0, False\r\n"@;
    let a2 = "cmd.exe /d /c "@ + seq!['"', '"'];
    let b2 = seq!['"', '"'] + " resume"@;
    assert(a =~= "cmd.exe /d /c "@ + seq!['"']);
    assert(b =~= seq!['"'] + " resume"@);
    lemma_doubled_free("cmd.exe /d /c "@, quote);
    lemma_doubled_free(" resume"@, quote);
    lemma_doubled_quote(quote);
    lemma_doubled_parts("cmd.exe /d /c "@, seq!['"'], quote);
    lemma_doubled_parts(seq!['"'], " resume"@, quote);
    lemma_doubled_parts(a + exe, b, quote);
    lemma_doubled_parts(a, exe, quote);
    let command = a + exe + b;
    assert(doubled(command, quote) == a2 + doubled(exe, quote) + b2);
    assert(rest[0] == ',');
    doubling_is_undone(command, quote, rest);
    let behind = doubled(command, quote) + seq![quote] + rest;
    assert("Set shell = CreateObject(\"WScript.Shell\")\r\nshell.Run \"cmd.exe /d /c \"\""@ =~= head
        + a2);
    assert("\"\" resume\", 0, False\r\n"@ =~= b2 + (seq![quote] + rest));
    assert(startup(exe) =~= head + behind);
    assert((head + behind).skip(head.len() as int) =~= behind);
    assert((head + behind).subrange(0, head.len() as int) =~= head);
}

proof fn lemma_doubled_parts(a: Seq<char>, b: Seq<char>, quote: char)
    ensures
        doubled(a + b, quote) == doubled(a, quote) + doubled(b, quote),
    decreases b.len(),
{
    if b.len() == 0 {
        assert(a + b =~= a);
        assert(doubled(a, quote) + doubled(b, quote) =~= doubled(a, quote));
    } else {
        lemma_doubled_parts(a, b.drop_last(), quote);
        assert((a + b).drop_last() =~= a + b.drop_last());
        let last = if b.last() == quote {
            seq![quote, quote]
        } else {
            seq![b.last()]
        };
        assert(doubled(a + b, quote) =~= doubled(a, quote) + (doubled(b.drop_last(), quote)
            + last));
    }
}

proof fn lemma_doubled_free(s: Seq<char>, quote: char)
    requires
        !s.contains(quote),
    ensures
        doubled(s, quote) == s,
    decreases s.len(),
{
    if s.len() > 0 {
        assert(s.contains(s.last()));
        let front = s.drop_last();
        assert forall|i: int| 0 <= i < front.len() implies front[i] != quote by {
            assert(s.contains(s[i]));
        }
        lemma_doubled_free(front, quote);
        assert(front + seq![s.last()] =~= s);
    } else {
        assert(doubled(s, quote) =~= s);
    }
}

proof fn lemma_doubled_quote(quote: char)
    ensures
        doubled(seq![quote], quote) == seq![quote, quote],
{
    lemma_replaced_first(seq![quote], quote, seq![quote, quote]);
    assert(seq![quote].skip(1) =~= seq![]);
    assert(doubled(seq![quote], quote) =~= seq![quote, quote]);
}

} // verus!
