//! Rewriting the OS hosts file: the block of managed lines between two
//! sentinel comments is replaced with one loopback line per configured
//! hostname; everything outside the block is kept as it was.
use vstd::prelude::*;

use crate::text::{push_char, str_starts_with};

verus! {

/// A line as `str::lines` yields it: one trailing carriage return before the
/// line feed is dropped.
pub open spec fn strip_cr(l: Seq<char>) -> Seq<char> {
    if l.len() > 0 && l.last() == '\r' {
        l.drop_last()
    } else {
        l
    }
}

/// The lines of what remains of a text, with `cur` the partial line read so
/// far: split at each line feed, and a final line feed opens no empty line.
pub open spec fn spec_lines_rec(s: Seq<char>, cur: Seq<char>) -> Seq<Seq<char>>
    decreases s.len(),
{
    if s.len() == 0 {
        if cur.len() == 0 {
            Seq::empty()
        } else {
            seq![cur]
        }
    } else if s[0] == '\n' {
        seq![strip_cr(cur)] + spec_lines_rec(s.drop_first(), Seq::empty())
    } else {
        spec_lines_rec(s.drop_first(), cur.push(s[0]))
    }
}

/// The lines of a text, as `str::lines` reads them.
pub open spec fn spec_lines(s: Seq<char>) -> Seq<Seq<char>> {
    spec_lines_rec(s, Seq::empty())
}

/// The sentinel comment that brackets the managed block.
pub open spec fn flag_line() -> Seq<char> {
    "# Auto Generate by disable_sni_reverse_proxy"@
}

/// A line counts as a sentinel when it starts like one.
pub open spec fn is_flag_line(l: Seq<char>) -> bool {
    "# Auto Generate"@.is_prefix_of(l)
}

/// The lines kept from an old hosts file: sentinel lines are dropped and
/// toggle the `inside` state, and lines inside a managed block are dropped.
pub open spec fn filter_lines(ls: Seq<Seq<char>>, inside: bool) -> Seq<Seq<char>>
    decreases ls.len(),
{
    if ls.len() == 0 {
        Seq::empty()
    } else if is_flag_line(ls[0]) {
        filter_lines(ls.drop_first(), !inside)
    } else if inside {
        filter_lines(ls.drop_first(), inside)
    } else {
        seq![ls[0]] + filter_lines(ls.drop_first(), inside)
    }
}

/// The managed line for one hostname: loopback, a tab, the hostname.
pub open spec fn pair_line(h: Seq<char>) -> Seq<char> {
    "127.0.0.1\t"@ + h
}

/// The managed block: nothing for no hostnames, else the sentinel, one line
/// per hostname, and the sentinel again.
pub open spec fn gen_lines(hosts: Seq<Seq<char>>) -> Seq<Seq<char>> {
    if hosts.len() == 0 {
        Seq::empty()
    } else {
        seq![flag_line()] + hosts.map_values(|h: Seq<char>| pair_line(h)) + seq![flag_line()]
    }
}

/// Lines joined by single line feeds, with no trailing one.
pub open spec fn join_lines(ls: Seq<Seq<char>>) -> Seq<char>
    decreases ls.len(),
{
    if ls.len() == 0 {
        Seq::empty()
    } else if ls.len() == 1 {
        ls[0]
    } else {
        ls[0] + seq!['\n'] + join_lines(ls.drop_first())
    }
}

/// The new hosts file: the old lines outside any managed block, then the
/// managed block for `hosts`.
pub open spec fn gen_hosts_spec(old: Seq<char>, hosts: Seq<Seq<char>>) -> Seq<char> {
    join_lines(filter_lines(spec_lines(old), false) + gen_lines(hosts))
}

proof fn lemma_join_lines_snoc(ls: Seq<Seq<char>>, l: Seq<char>)
    ensures
        join_lines(ls.push(l)) == if ls.len() == 0 {
            l
        } else {
            join_lines(ls) + seq!['\n'] + l
        },
    decreases ls.len(),
{
    if ls.len() == 0 {
        assert(ls.push(l).len() == 1);
        assert(ls.push(l)[0] == l);
    } else {
        assert(ls.push(l).drop_first() =~= ls.drop_first().push(l));
        assert(ls.push(l)[0] == ls[0]);
        lemma_join_lines_snoc(ls.drop_first(), l);
        if ls.len() == 1 {
            assert(ls.drop_first().len() == 0);
            assert(join_lines(ls.push(l)) == ls[0] + seq!['\n'] + l);
            assert(join_lines(ls) == ls[0]);
        } else {
            assert(ls[0] + seq!['\n'] + (join_lines(ls.drop_first()) + seq!['\n'] + l) =~= (
            ls[0] + seq!['\n'] + join_lines(ls.drop_first())) + seq!['\n'] + l);
        }
    }
}

/// Splits a text into its lines, as `str::lines` does.
fn split_lines(s: &str) -> (r: Vec<String>)
    ensures
        r@.map_values(|x: String| x@) == spec_lines(s@),
{
    let n = s.unicode_len();
    let mut r: Vec<String> = Vec::new();
    let mut cur = String::new();
    let mut i: usize = 0;
    proof {
        assert(s@.subrange(0, n as int) =~= s@);
    }
    while i < n
        invariant
            i <= n,
            n == s@.len(),
            spec_lines(s@) == r@.map_values(|x: String| x@) + spec_lines_rec(
                s@.subrange(i as int, n as int),
                cur@,
            ),
        decreases n - i,
    {
        let ghost r_old = r@;
        let ghost cur_old = cur@;
        let ghost rest_old = s@.subrange(i as int, n as int);
        let c = s.get_char(i);
        if c == '\n' {
            let cl = cur.unicode_len();
            let stripped: String = if cl > 0 && cur.as_str().get_char(cl - 1) == '\r' {
                cur.as_str().substring_char(0, cl - 1).to_owned()
            } else {
                cur
            };
            proof {
                assert(stripped@ =~= strip_cr(cur_old));
            }
            r.push(stripped);
            cur = String::new();
        } else {
            push_char(&mut cur, c);
        }
        i += 1;
        proof {
            assert(rest_old[0] == s@[i - 1]);
            assert(rest_old.drop_first() =~= s@.subrange(i as int, n as int));
            if c == '\n' {
                assert(r@.map_values(|x: String| x@) =~= r_old.map_values(|x: String| x@)
                    + seq![strip_cr(cur_old)]);
                assert(r_old.map_values(|x: String| x@) + (seq![strip_cr(cur_old)]
                    + spec_lines_rec(s@.subrange(i as int, n as int), Seq::empty())) =~= r@
                    .map_values(|x: String| x@) + spec_lines_rec(
                    s@.subrange(i as int, n as int),
                    Seq::empty(),
                ));
            }
        }
    }
    proof {
        assert(s@.subrange(n as int, n as int) =~= Seq::<char>::empty());
    }
    if cur.unicode_len() > 0 {
        let ghost r_old = r@;
        let ghost cur_old = cur@;
        r.push(cur);
        proof {
            assert(r@.map_values(|x: String| x@) =~= r_old.map_values(|x: String| x@) + seq![
                cur_old,
            ]);
        }
    } else {
        proof {
            assert(r@.map_values(|x: String| x@) + Seq::<Seq<char>>::empty() =~= r@.map_values(
                |x: String| x@,
            ));
        }
    }
    r
}

/// Rewrites an old hosts file: keeps every line outside the managed block,
/// drops any previous block, and appends one loopback line per hostname
/// between fresh sentinel lines; with no hostnames the block is simply
/// removed.
pub fn gen_hosts(old_hosts: &str, hostnames: &Vec<String>) -> (r: String)
    ensures
        r@ == gen_hosts_spec(old_hosts@, hostnames@.map_values(|h: String| h@)),
{
    let lines = split_lines(old_hosts);
    let ghost all = spec_lines(old_hosts@);
    let mut kept: Vec<String> = Vec::new();
    let mut inside = false;
    let mut i: usize = 0;
    proof {
        assert(all.subrange(0, all.len() as int) =~= all);
    }
    while i < lines.len()
        invariant
            i <= lines@.len(),
            all == lines@.map_values(|x: String| x@),
            filter_lines(all, false) == kept@.map_values(|x: String| x@) + filter_lines(
                all.subrange(i as int, all.len() as int),
                inside,
            ),
        decreases lines@.len() - i,
    {
        let ghost kept_old = kept@;
        let ghost rest_old = all.subrange(i as int, all.len() as int);
        let line = &lines[i];
        proof {
            assert(rest_old[0] == all[i as int]);
            assert(rest_old.drop_first() =~= all.subrange(i as int + 1, all.len() as int));
        }
        if str_starts_with(line.as_str(), "# Auto Generate") {
            inside = !inside;
        } else if !inside {
            kept.push(line.clone());
            proof {
                assert(kept@.map_values(|x: String| x@) =~= kept_old.map_values(|x: String| x@)
                    + seq![all[i as int]]);
                assert(kept_old.map_values(|x: String| x@) + (seq![all[i as int]]
                    + filter_lines(rest_old.drop_first(), inside)) =~= kept@.map_values(
                    |x: String| x@,
                ) + filter_lines(rest_old.drop_first(), inside));
            }
        }
        i += 1;
    }
    proof {
        assert(all.subrange(all.len() as int, all.len() as int) =~= Seq::<Seq<char>>::empty());
        assert(kept@.map_values(|x: String| x@) + Seq::<Seq<char>>::empty() =~= kept@.map_values(
            |x: String| x@,
        ));
    }
    let mut out_lines = kept;
    let ghost kept_view = out_lines@.map_values(|x: String| x@);
    let ghost hview = hostnames@.map_values(|h: String| h@);
    if hostnames.len() > 0 {
        out_lines.push(String::from_str("# Auto Generate by disable_sni_reverse_proxy"));
        let mut k: usize = 0;
        while k < hostnames.len()
            invariant
                k <= hostnames@.len(),
                hostnames@.len() > 0,
                hview == hostnames@.map_values(|h: String| h@),
                out_lines@.map_values(|x: String| x@) =~= kept_view + seq![flag_line()]
                    + hview.subrange(0, k as int).map_values(|h: Seq<char>| pair_line(h)),
            decreases hostnames@.len() - k,
        {
            let ghost out_old = out_lines@.map_values(|x: String| x@);
            let mut entry = String::from_str("127.0.0.1\t");
            entry.append(hostnames[k].as_str());
            out_lines.push(entry);
            proof {
                assert(out_lines@.map_values(|x: String| x@) =~= out_old + seq![
                    pair_line(hview[k as int]),
                ]);
                assert(hview.subrange(0, k as int + 1).map_values(
                    |h: Seq<char>| pair_line(h),
                ) =~= hview.subrange(0, k as int).map_values(|h: Seq<char>| pair_line(h)).push(
                    pair_line(hview[k as int]),
                ));
                assert(kept_view + seq![flag_line()] + hview.subrange(0, k as int).map_values(
                    |h: Seq<char>| pair_line(h),
                ).push(pair_line(hview[k as int])) =~= (kept_view + seq![flag_line()]
                    + hview.subrange(0, k as int).map_values(|h: Seq<char>| pair_line(h))).push(
                    pair_line(hview[k as int]),
                ));
            }
            k += 1;
        }
        let ghost out_old = out_lines@.map_values(|x: String| x@);
        out_lines.push(String::from_str("# Auto Generate by disable_sni_reverse_proxy"));
        proof {
            assert(hview.subrange(0, hview.len() as int) =~= hview);
            assert(out_lines@.map_values(|x: String| x@) =~= out_old + seq![flag_line()]);
            assert(out_lines@.map_values(|x: String| x@) =~= kept_view + gen_lines(hview));
        }
    } else {
        proof {
            assert(out_lines@.map_values(|x: String| x@) =~= kept_view + gen_lines(hview));
        }
    }
    let mut out = String::new();
    let mut j: usize = 0;
    let ghost finals = out_lines@.map_values(|x: String| x@);
    while j < out_lines.len()
        invariant
            j <= out_lines@.len(),
            finals == out_lines@.map_values(|x: String| x@),
            out@ == join_lines(finals.subrange(0, j as int)),
        decreases out_lines@.len() - j,
    {
        proof {
            assert(finals.subrange(0, j as int).len() == j);
        }
        if j > 0 {
            push_char(&mut out, '\n');
        }
        out.append(out_lines[j].as_str());
        proof {
            lemma_join_lines_snoc(finals.subrange(0, j as int), finals[j as int]);
            assert(finals.subrange(0, j as int + 1) =~= finals.subrange(0, j as int).push(
                finals[j as int],
            ));
            if j > 0 {
                assert(out@ =~= join_lines(finals.subrange(0, j as int)) + seq!['\n']
                    + finals[j as int]);
            }
        }
        j += 1;
    }
    proof {
        assert(finals.subrange(0, finals.len() as int) =~= finals);
        assert(finals =~= filter_lines(spec_lines(old_hosts@), false) + gen_lines(hview));
    }
    out
}

} // verus!
