//! What holds of the command lines on which daemons are handed their tasks.

use vstd::prelude::*;

use crate::commands::{flag_args, option_args, port_or_default, remote_args, task_args};
use crate::daemon::TaskType;
use crate::number::{decimal, decimal_is_injective};
use crate::policy::{ConflictPolicy, conflict_name, lemma_names_differ};
use crate::text::{flagged, lemma_assoc, lemma_flagged_index, lemma_flagged_len};
use crate::text::{opt_text, texts};

verus! {

/// Whether two tasks name the same remote machine, and then the same port.
pub open spec fn same_remote(
    a: Option<String>,
    a_port: Option<u16>,
    b: Option<String>,
    b_port: Option<u16>,
) -> bool {
    &&& opt_text(a) == opt_text(b)
    &&& a is Some ==> port_or_default(a_port) == port_or_default(b_port)
}

/// Whether two tasks are the same task: all that they hold is the same, but for
/// a port that is not used or that is left to its default.
pub open spec fn same_task(a: TaskType, b: TaskType) -> bool {
    match (a, b) {
        (
            TaskType::Unzip { path, delete, conflict, stable_secs },
            TaskType::Unzip { path: path2, delete: delete2, conflict: c2, stable_secs: s2 },
        ) => path@ == path2@ && delete == delete2 && conflict == c2 && stable_secs == s2,
        (
            TaskType::Mirror {
                src,
                dest,
                remote,
                port,
                use_rsync,
                conflict,
                stable_secs,
                included,
                excluded,
            },
            TaskType::Mirror {
                src: src2,
                dest: dest2,
                remote: remote2,
                port: port2,
                use_rsync: rsync2,
                conflict: c2,
                stable_secs: s2,
                included: included2,
                excluded: excluded2,
            },
        ) => {
            &&& src@ == src2@
            &&& dest@ == dest2@
            &&& same_remote(remote, port, remote2, port2)
            &&& use_rsync == rsync2
            &&& conflict == c2
            &&& stable_secs == s2
            &&& texts(included@) == texts(included2@)
            &&& texts(excluded@) == texts(excluded2@)
        },
        (
            TaskType::Sort { path, rules, conflict, stable_secs },
            TaskType::Sort { path: path2, rules: rules2, conflict: c2, stable_secs: s2 },
        ) => path@ == path2@ && texts(rules@) == texts(rules2@) && conflict == c2 && stable_secs
            == s2,
        (
            TaskType::Clean {
                path,
                older_than_days,
                move_to,
                remote,
                port,
                use_rsync,
                empty_dirs,
                conflict,
            },
            TaskType::Clean {
                path: path2,
                older_than_days: days2,
                move_to: move_to2,
                remote: remote2,
                port: port2,
                use_rsync: rsync2,
                empty_dirs: empty_dirs2,
                conflict: c2,
            },
        ) => {
            &&& path@ == path2@
            &&& older_than_days == days2
            &&& opt_text(move_to) == opt_text(move_to2)
            &&& same_remote(remote, port, remote2, port2)
            &&& use_rsync == rsync2
            &&& empty_dirs == empty_dirs2
            &&& conflict == c2
        },
        _ => false,
    }
}

/// Two sequences that are cut at the same place have the same parts.
proof fn lemma_cut<A>(x: Seq<A>, y: Seq<A>, u: Seq<A>, v: Seq<A>)
    requires
        x + y == u + v,
        x.len() == u.len(),
    ensures
        x == u,
        y == v,
{
    assert(x =~= (x + y).take(x.len() as int));
    assert(u =~= (u + v).take(u.len() as int));
    assert(y =~= (x + y).skip(x.len() as int));
    assert(v =~= (u + v).skip(u.len() as int));
}

/// The command line to mirror, part by part.
proof fn lemma_mirror_parts<A>(
    head: Seq<A>,
    r: Seq<A>,
    f: Seq<A>,
    c: Seq<A>,
    s: Seq<A>,
    i: Seq<A>,
    e: Seq<A>,
)
    ensures
        head + r + f + c + s + i + e == head + (r + (f + ((c + s) + (i + e)))),
{
    lemma_assoc(head + r + f, c, s);
    lemma_assoc(head + r + f + (c + s), i, e);
    lemma_assoc(head + r + f, c + s, i + e);
    lemma_assoc(head + r, f, (c + s) + (i + e));
    lemma_assoc(head, r, f + ((c + s) + (i + e)));
}

/// The command line to clean, part by part.
proof fn lemma_clean_parts<A>(
    head: Seq<A>,
    age: Seq<A>,
    m: Seq<A>,
    r: Seq<A>,
    f: Seq<A>,
    g: Seq<A>,
    t: Seq<A>,
)
    ensures
        head + age + m + r + f + g + t == (head + age) + (m + (r + (f + (g + t)))),
{
    lemma_assoc(head + age + m + r + f, g, t);
    lemma_assoc(head + age + m + r, f, g + t);
    lemma_assoc(head + age + m, r, f + (g + t));
    lemma_assoc(head + age, m, r + (f + (g + t)));
}

/// What stands first where `x` comes before `y`.
proof fn lemma_first<A>(x: Seq<A>, y: Seq<A>)
    ensures
        x.len() > 0 ==> (x + y)[0] == x[0],
        x.len() == 0 ==> x + y == y,
{
    if x.len() == 0 {
        assert(x + y =~= y);
    }
}

proof fn lemma_conflict_name_is_injective(a: ConflictPolicy, b: ConflictPolicy)
    requires
        conflict_name(a) == conflict_name(b),
    ensures
        a == b,
{
    lemma_names_differ();
}

/// What stands at the head of the parts of a command line differs.
proof fn lemma_words_differ()
    ensures
        "unzip"@ != "mirror"@,
        "unzip"@ != "sort"@,
        "unzip"@ != "clean"@,
        "mirror"@ != "sort"@,
        "mirror"@ != "clean"@,
        "sort"@ != "clean"@,
        "--no-delete"@ != "--on-conflict"@,
        "--scp"@ != "--rsync"@,
        "--scp"@ != "--empty-dirs"@,
        "--scp"@ != "--on-conflict"@,
        "--rsync"@ != "--on-conflict"@,
        "--rsync"@ != "--empty-dirs"@,
        "--empty-dirs"@ != "--on-conflict"@,
        "--include"@ != "--exclude"@,
        "--rule"@ != "--on-conflict"@,
        "--move-to"@ != "--scp"@,
        "--move-to"@ != "--rsync"@,
        "--move-to"@ != "--empty-dirs"@,
        "--move-to"@ != "--on-conflict"@,
{
    reveal_strlit("unzip");
    reveal_strlit("mirror");
    reveal_strlit("sort");
    reveal_strlit("clean");
    reveal_strlit("--no-delete");
    reveal_strlit("--on-conflict");
    reveal_strlit("--scp");
    reveal_strlit("--rsync");
    reveal_strlit("--empty-dirs");
    reveal_strlit("--include");
    reveal_strlit("--exclude");
    reveal_strlit("--rule");
    reveal_strlit("--move-to");
    assert("unzip"@.len() == 5 && "mirror"@.len() == 6 && "sort"@.len() == 4);
    assert("--no-delete"@.len() == 11 && "--on-conflict"@.len() == 13);
    assert("--scp"@.len() == 5 && "--rsync"@.len() == 7 && "--empty-dirs"@.len() == 12);
    assert("--rule"@.len() == 6 && "--move-to"@.len() == 9);
    assert("unzip"@[0] == 'u' && "clean"@[0] == 'c');
    assert("--include"@[2] == 'i' && "--exclude"@[2] == 'e');
}

/// A flag is known by what stands at its place.
proof fn lemma_flag_known(
    a: bool,
    b: bool,
    flag: Seq<char>,
    x: Seq<Seq<char>>,
    y: Seq<Seq<char>>,
)
    requires
        flag_args(a, flag) + x == flag_args(b, flag) + y,
        x.len() > 0,
        y.len() > 0,
        x[0] != flag,
        y[0] != flag,
    ensures
        a == b,
        x == y,
{
    let left = flag_args(a, flag) + x;
    let right = flag_args(b, flag) + y;
    assert(left[0] == if a { flag } else { x[0] });
    assert(right[0] == if b { flag } else { y[0] });
    lemma_cut(flag_args(a, flag), x, flag_args(b, flag), y);
}

/// A remote machine is known by what stands at its place.
proof fn lemma_remote_known(
    a: Option<String>,
    a_port: Option<u16>,
    b: Option<String>,
    b_port: Option<u16>,
    x: Seq<Seq<char>>,
    y: Seq<Seq<char>>,
)
    requires
        remote_args(opt_text(a), a_port) + x == remote_args(opt_text(b), b_port) + y,
        x.len() > 0,
        y.len() > 0,
        x[0] != "--scp"@,
        y[0] != "--scp"@,
    ensures
        same_remote(a, a_port, b, b_port),
        x == y,
{
    let (ra, rb) = (remote_args(opt_text(a), a_port), remote_args(opt_text(b), b_port));
    assert((ra + x)[0] == if a is Some { "--scp"@ } else { x[0] });
    assert((rb + y)[0] == if b is Some { "--scp"@ } else { y[0] });
    lemma_cut(ra, x, rb, y);
    if a is Some {
        assert(ra[1] == rb[1]);
        assert(ra[3] == rb[3]);
        decimal_is_injective(port_or_default(a_port), port_or_default(b_port));
    }
}

/// The values behind one flag are known if another word follows them.
proof fn lemma_flagged_known(
    flag: Seq<char>,
    a: Seq<Seq<char>>,
    b: Seq<Seq<char>>,
    x: Seq<Seq<char>>,
    y: Seq<Seq<char>>,
)
    requires
        flagged(flag, a) + x == flagged(flag, b) + y,
        x.len() > 0 ==> x[0] != flag,
        y.len() > 0 ==> y[0] != flag,
    ensures
        a == b,
        x == y,
{
    let left = flagged(flag, a) + x;
    let right = flagged(flag, b) + y;
    lemma_flagged_len(flag, a);
    lemma_flagged_len(flag, b);
    if a.len() < b.len() {
        lemma_flagged_index(flag, b, a.len() as int);
        assert(right[2 * a.len() as int] == flag);
        assert(x.len() > 0);
        assert(left[2 * a.len() as int] == x[0]);
    } else if b.len() < a.len() {
        lemma_flagged_index(flag, a, b.len() as int);
        assert(left[2 * b.len() as int] == flag);
        assert(y.len() > 0);
        assert(right[2 * b.len() as int] == y[0]);
    }
    lemma_cut(flagged(flag, a), x, flagged(flag, b), y);
    assert forall|i: int| 0 <= i < a.len() implies a[i] == b[i] by {
        lemma_flagged_index(flag, a, i);
        lemma_flagged_index(flag, b, i);
    }
    assert(a =~= b);
}

/// The command line of a daemon determines its task.
pub proof fn args_determine_task(a: TaskType, b: TaskType)
    requires
        task_args(a) == task_args(b),
    ensures
        same_task(a, b),
{
    lemma_words_differ();
    assert(task_args(a)[1] == match a {
        TaskType::Unzip { .. } => "unzip"@,
        TaskType::Mirror { .. } => "mirror"@,
        TaskType::Sort { .. } => "sort"@,
        TaskType::Clean { .. } => "clean"@,
    });
    assert(task_args(b)[1] == match b {
        TaskType::Unzip { .. } => "unzip"@,
        TaskType::Mirror { .. } => "mirror"@,
        TaskType::Sort { .. } => "sort"@,
        TaskType::Clean { .. } => "clean"@,
    });
    match (a, b) {
        (TaskType::Unzip { .. }, TaskType::Unzip { .. }) => lemma_unzip(a, b),
        (TaskType::Mirror { .. }, TaskType::Mirror { .. }) => lemma_mirror(a, b),
        (TaskType::Sort { .. }, TaskType::Sort { .. }) => lemma_sort(a, b),
        (TaskType::Clean { .. }, TaskType::Clean { .. }) => lemma_clean(a, b),
        _ => {},
    }
}

proof fn lemma_tail(c: ConflictPolicy, s: u64, c2: ConflictPolicy, s2: u64)
    requires
        seq!["--on-conflict"@, conflict_name(c), "--stable-secs"@, decimal(s as nat)] == seq![
            "--on-conflict"@,
            conflict_name(c2),
            "--stable-secs"@,
            decimal(s2 as nat),
        ],
    ensures
        c == c2,
        s == s2,
{
    let x = seq!["--on-conflict"@, conflict_name(c), "--stable-secs"@, decimal(s as nat)];
    let y = seq!["--on-conflict"@, conflict_name(c2), "--stable-secs"@, decimal(s2 as nat)];
    assert(x[1] == y[1] && x[3] == y[3]);
    lemma_conflict_name_is_injective(c, c2);
    decimal_is_injective(s as nat, s2 as nat);
}

spec fn tail(c: ConflictPolicy, s: u64) -> Seq<Seq<char>> {
    seq!["--on-conflict"@, conflict_name(c), "--stable-secs"@, decimal(s as nat)]
}

proof fn lemma_unzip(a: TaskType, b: TaskType)
    requires
        task_args(a) == task_args(b),
        a is Unzip,
        b is Unzip,
    ensures
        same_task(a, b),
{
    lemma_words_differ();
    if let (
        TaskType::Unzip { path, delete, conflict, stable_secs },
        TaskType::Unzip { path: path2, delete: delete2, conflict: c2, stable_secs: s2 },
    ) = (a, b) {
        let head = seq!["--daemon-internal"@, "unzip"@, path@];
        let head2 = seq!["--daemon-internal"@, "unzip"@, path2@];
        let (t, t2) = (tail(conflict, stable_secs), tail(c2, s2));
        let (f, f2) = (flag_args(!delete, "--no-delete"@), flag_args(!delete2, "--no-delete"@));
        assert(task_args(a) =~= head + (f + t));
        assert(task_args(b) =~= head2 + (f2 + t2));
        lemma_cut(head, f + t, head2, f2 + t2);
        assert(head[2] == head2[2]);
        lemma_flag_known(!delete, !delete2, "--no-delete"@, t, t2);
        lemma_tail(conflict, stable_secs, c2, s2);
    }
}

proof fn lemma_sort(a: TaskType, b: TaskType)
    requires
        task_args(a) == task_args(b),
        a is Sort,
        b is Sort,
    ensures
        same_task(a, b),
{
    lemma_words_differ();
    if let (
        TaskType::Sort { path, rules, conflict, stable_secs },
        TaskType::Sort { path: path2, rules: rules2, conflict: c2, stable_secs: s2 },
    ) = (a, b) {
        let head = seq!["--daemon-internal"@, "sort"@, path@];
        let head2 = seq!["--daemon-internal"@, "sort"@, path2@];
        let (t, t2) = (tail(conflict, stable_secs), tail(c2, s2));
        let (f, f2) = (flagged("--rule"@, texts(rules@)), flagged("--rule"@, texts(rules2@)));
        assert(task_args(a) =~= head + (f + t));
        assert(task_args(b) =~= head2 + (f2 + t2));
        lemma_cut(head, f + t, head2, f2 + t2);
        assert(head[2] == head2[2]);
        lemma_flagged_known("--rule"@, texts(rules@), texts(rules2@), t, t2);
        lemma_tail(conflict, stable_secs, c2, s2);
    }
}

proof fn lemma_mirror(a: TaskType, b: TaskType)
    requires
        task_args(a) == task_args(b),
        a is Mirror,
        b is Mirror,
    ensures
        same_task(a, b),
{
    lemma_words_differ();
    if let (
        TaskType::Mirror {
            src,
            dest,
            remote,
            port,
            use_rsync,
            conflict,
            stable_secs,
            included,
            excluded,
        },
        TaskType::Mirror {
            src: src2,
            dest: dest2,
            remote: remote2,
            port: port2,
            use_rsync: rsync2,
            conflict: c2,
            stable_secs: s2,
            included: included2,
            excluded: excluded2,
        },
    ) = (a, b) {
        let head = seq!["--daemon-internal"@, "mirror"@, src@, dest@];
        let head2 = seq!["--daemon-internal"@, "mirror"@, src2@, dest2@];
        let (r, r2) = (remote_args(opt_text(remote), port), remote_args(opt_text(remote2), port2));
        let (f, f2) = (flag_args(use_rsync, "--rsync"@), flag_args(rsync2, "--rsync"@));
        let (t, t2) = (tail(conflict, stable_secs), tail(c2, s2));
        let (i, i2) = (texts(included@), texts(included2@));
        let (e, e2) = (texts(excluded@), texts(excluded2@));
        let (fi, fi2) = (flagged("--include"@, i), flagged("--include"@, i2));
        let (fe, fe2) = (flagged("--exclude"@, e), flagged("--exclude"@, e2));
        let rest = t + (fi + fe);
        let rest2 = t2 + (fi2 + fe2);
        let (c, st) = (
            seq!["--on-conflict"@, conflict_name(conflict)],
            seq!["--stable-secs"@, decimal(stable_secs as nat)],
        );
        let (c_2, st_2) = (
            seq!["--on-conflict"@, conflict_name(c2)],
            seq!["--stable-secs"@, decimal(s2 as nat)],
        );
        assert(t =~= c + st);
        assert(t2 =~= c_2 + st_2);
        lemma_mirror_parts(head, r, f, c, st, fi, fe);
        lemma_mirror_parts(head2, r2, f2, c_2, st_2, fi2, fe2);
        lemma_cut(head, r + (f + rest), head2, r2 + (f2 + rest2));
        assert(head[2] == head2[2] && head[3] == head2[3]);
        lemma_first(t, fi + fe);
        lemma_first(t2, fi2 + fe2);
        lemma_first(f, rest);
        lemma_first(f2, rest2);
        lemma_remote_known(remote, port, remote2, port2, f + rest, f2 + rest2);
        lemma_flag_known(use_rsync, rsync2, "--rsync"@, rest, rest2);
        lemma_cut(t, fi + fe, t2, fi2 + fe2);
        lemma_tail(conflict, stable_secs, c2, s2);
        lemma_flagged_len("--exclude"@, e);
        lemma_flagged_len("--exclude"@, e2);
        if e.len() > 0 {
            lemma_flagged_index("--exclude"@, e, 0);
        }
        if e2.len() > 0 {
            lemma_flagged_index("--exclude"@, e2, 0);
        }
        lemma_flagged_known("--include"@, i, i2, fe, fe2);
        assert(fe + seq![] =~= fe);
        assert(fe2 + seq![] =~= fe2);
        lemma_flagged_known("--exclude"@, e, e2, seq![], seq![]);
    }
}

proof fn lemma_clean(a: TaskType, b: TaskType)
    requires
        task_args(a) == task_args(b),
        a is Clean,
        b is Clean,
    ensures
        same_task(a, b),
{
    lemma_words_differ();
    if let (
        TaskType::Clean {
            path,
            older_than_days,
            move_to,
            remote,
            port,
            use_rsync,
            empty_dirs,
            conflict,
        },
        TaskType::Clean {
            path: path2,
            older_than_days: days2,
            move_to: move_to2,
            remote: remote2,
            port: port2,
            use_rsync: rsync2,
            empty_dirs: empty_dirs2,
            conflict: c2,
        },
    ) = (a, b) {
        let age = decimal(older_than_days as nat) + "d"@;
        let age2 = decimal(days2 as nat) + "d"@;
        let (p, o) = (seq!["--daemon-internal"@, "clean"@, path@], seq!["--older-than"@, age]);
        let (p2, o2) = (
            seq!["--daemon-internal"@, "clean"@, path2@],
            seq!["--older-than"@, age2],
        );
        let (head, head2) = (p + o, p2 + o2);
        let m = option_args("--move-to"@, opt_text(move_to));
        let m2 = option_args("--move-to"@, opt_text(move_to2));
        let (r, r2) = (remote_args(opt_text(remote), port), remote_args(opt_text(remote2), port2));
        let (f, f2) = (flag_args(use_rsync, "--rsync"@), flag_args(rsync2, "--rsync"@));
        let g = flag_args(empty_dirs, "--empty-dirs"@);
        let g2 = flag_args(empty_dirs2, "--empty-dirs"@);
        let t = seq!["--on-conflict"@, conflict_name(conflict)];
        let t2 = seq!["--on-conflict"@, conflict_name(c2)];
        let (x, x2) = (f + (g + t), f2 + (g2 + t2));
        lemma_clean_parts(p, o, m, r, f, g, t);
        lemma_clean_parts(p2, o2, m2, r2, f2, g2, t2);
        lemma_cut(head, m + (r + x), head2, m2 + (r2 + x2));
        assert(head[2] == head2[2] && head[4] == head2[4]);
        assert(age.take(age.len() - "d"@.len()) =~= decimal(older_than_days as nat));
        assert(age2.take(age2.len() - "d"@.len()) =~= decimal(days2 as nat));
        decimal_is_injective(older_than_days as nat, days2 as nat);
        lemma_first(g, t);
        lemma_first(g2, t2);
        lemma_first(f, g + t);
        lemma_first(f2, g2 + t2);
        lemma_first(r, x);
        lemma_first(r2, x2);
        lemma_first(m, r + x);
        lemma_first(m2, r2 + x2);
        lemma_cut(m, r + x, m2, r2 + x2);
        if move_to is Some {
            assert(m[1] == m2[1]);
        }
        lemma_remote_known(remote, port, remote2, port2, x, x2);
        lemma_flag_known(use_rsync, rsync2, "--rsync"@, g + t, g2 + t2);
        lemma_flag_known(empty_dirs, empty_dirs2, "--empty-dirs"@, t, t2);
        assert(t[1] == t2[1]);
        lemma_conflict_name_is_injective(conflict, c2);
    }
}

} // verus!
