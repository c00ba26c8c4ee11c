use vstd::prelude::*;

verus! {

/// The literal token that separates the global options from the commands,
/// and each command from the next.
pub open spec fn separator() -> Seq<char> {
    "::"@
}

/// The text of each argument.
pub open spec fn tokens(v: Seq<String>) -> Seq<Seq<char>> {
    v.map_values(|s: String| s@)
}

/// The text of each argument of each group.
pub open spec fn groups(v: Seq<Vec<String>>) -> Seq<Seq<Seq<char>>> {
    v.map_values(|g: Vec<String>| tokens(g@))
}

/// The pieces between the separators: one more than there are separators,
/// empty pieces included.
pub open spec fn split_groups(a: Seq<Seq<char>>) -> Seq<Seq<Seq<char>>>
    decreases a.len(),
{
    if a.len() == 0 {
        seq![Seq::empty()]
    } else {
        let rest = split_groups(a.drop_last());
        if a.last() == separator() {
            rest.push(Seq::empty())
        } else {
            rest.update(rest.len() - 1, rest.last().push(a.last()))
        }
    }
}

/// The non-empty groups, in their order.
pub open spec fn non_empty(gs: Seq<Seq<Seq<char>>>) -> Seq<Seq<Seq<char>>>
    decreases gs.len(),
{
    if gs.len() == 0 {
        Seq::empty()
    } else if gs.last().len() == 0 {
        non_empty(gs.drop_last())
    } else {
        non_empty(gs.drop_last()).push(gs.last())
    }
}

/// The options group (the piece before the first separator, kept even when
/// empty), followed by the command groups (the non-empty pieces after it).
pub open spec fn segments(a: Seq<Seq<char>>) -> Seq<Seq<Seq<char>>> {
    let g = split_groups(a);
    seq![g[0]] + non_empty(g.drop_first())
}

proof fn lemma_split_groups_len(a: Seq<Seq<char>>)
    ensures
        split_groups(a).len() >= 1,
    decreases a.len(),
{
    if a.len() > 0 {
        lemma_split_groups_len(a.drop_last());
    }
}

/// Splits the argument list on every `::` token. The first group is always
/// there; the groups after it are the non-empty ones.
pub fn parse_args(args: Vec<String>) -> (r: Vec<Vec<String>>)
    ensures
        groups(r@) == segments(tokens(args@)),
{
    let sep = String::from_str("::");
    let ghost a = tokens(args@);
    let mut result: Vec<Vec<String>> = Vec::new();
    let mut current: Vec<String> = Vec::new();
    let mut seen: bool = false;
    let mut i: usize = 0;
    proof {
        assert(a.take(0) =~= Seq::<Seq<char>>::empty());
    }
    while i < args.len()
        invariant
            0 <= i <= args.len(),
            a == tokens(args@),
            sep@ == separator(),
            split_groups(a.take(i as int)).len() >= 1,
            tokens(current@) == split_groups(a.take(i as int)).last(),
            !seen ==> split_groups(a.take(i as int)).len() == 1 && result@.len() == 0,
            seen ==> split_groups(a.take(i as int)).len() >= 2 && groups(result@) == seq![
                split_groups(a.take(i as int))[0],
            ] + non_empty(split_groups(a.take(i as int)).drop_first().drop_last()),
        decreases args.len() - i,
    {
        let ghost g = split_groups(a.take(i as int));
        proof {
            assert(a.take(i + 1).drop_last() =~= a.take(i as int));
            assert(a.take(i + 1).last() == a[i as int]);
        }
        if args[i] == sep {
            let ghost g2 = g.push(Seq::empty());
            assert(split_groups(a.take(i + 1)) == g2);
            if !seen {
                result.push(current);
                proof {
                    assert(g2.drop_first().drop_last() =~= Seq::<Seq<Seq<char>>>::empty());
                    assert(groups(result@) =~= seq![g2[0]] + non_empty(g2.drop_first().drop_last()));
                }
                seen = true;
            } else {
                proof {
                    assert(g2.drop_first().drop_last() =~= g.drop_first().drop_last().push(g.last()));
                    assert(g2.drop_first().drop_last().drop_last() =~= g.drop_first().drop_last());
                }
                if current.len() > 0 {
                    let ghost before = result@;
                    result.push(current);
                    proof {
                        let x = g.drop_first().drop_last();
                        assert(x.push(g.last()).drop_last() =~= x);
                        assert(non_empty(x.push(g.last())) == non_empty(x).push(g.last()));
                        assert(groups(result@) =~= groups(before).push(g.last()));
                    }
                    assert(groups(result@) =~= seq![g2[0]] + non_empty(g2.drop_first().drop_last()));
                } else {
                    assert(groups(result@) =~= seq![g2[0]] + non_empty(g2.drop_first().drop_last()));
                }
            }
            current = Vec::new();
            assert(tokens(current@) =~= g2.last());
        } else {
            let ghost g2 = g.update(g.len() - 1, g.last().push(a[i as int]));
            assert(split_groups(a.take(i + 1)) == g2);
            current.push(args[i].clone());
            assert(tokens(current@) =~= g2.last());
            if seen {
                assert(g2.drop_first().drop_last() =~= g.drop_first().drop_last());
            }
        }
        i = i + 1;
    }
    proof {
        assert(a.take(i as int) =~= a);
    }
    let ghost g = split_groups(a);
    if !seen {
        result.push(current);
        assert(g.drop_first() =~= Seq::<Seq<Seq<char>>>::empty());
        assert(groups(result@) =~= segments(a));
    } else {
        assert(g.drop_first() =~= g.drop_first().drop_last().push(g.last()));
        if current.len() > 0 {
            let ghost before = result@;
            result.push(current);
            proof {
                let x = g.drop_first().drop_last();
                assert(x.push(g.last()).drop_last() =~= x);
                assert(non_empty(x.push(g.last())) == non_empty(x).push(g.last()));
                assert(groups(result@) =~= groups(before).push(g.last()));
            }
            assert(groups(result@) =~= segments(a));
        } else {
            assert(groups(result@) =~= segments(a));
        }
    }
    result
}

/// The groups written one after the other.
pub open spec fn concat_groups(gs: Seq<Seq<Seq<char>>>) -> Seq<Seq<char>>
    decreases gs.len(),
{
    if gs.len() == 0 {
        Seq::empty()
    } else {
        concat_groups(gs.drop_last()) + gs.last()
    }
}

/// The arguments with every separator token taken out.
pub open spec fn without_separators(a: Seq<Seq<char>>) -> Seq<Seq<char>>
    decreases a.len(),
{
    if a.len() == 0 {
        Seq::empty()
    } else if a.last() == separator() {
        without_separators(a.drop_last())
    } else {
        without_separators(a.drop_last()).push(a.last())
    }
}

proof fn lemma_no_separator_one_group(a: Seq<Seq<char>>)
    requires
        forall|j: int| 0 <= j < a.len() ==> a[j] != separator(),
    ensures
        split_groups(a) == seq![a],
    decreases a.len(),
{
    if a.len() == 0 {
        assert(a =~= Seq::<Seq<char>>::empty());
    } else {
        lemma_no_separator_one_group(a.drop_last());
        assert(a[a.len() - 1] != separator());
        assert(a.drop_last().push(a.last()) =~= a);
        assert(split_groups(a) =~= seq![a]);
    }
}

proof fn lemma_separator_two_groups(a: Seq<Seq<char>>, j: int)
    requires
        0 <= j < a.len(),
        a[j] == separator(),
    ensures
        split_groups(a).len() >= 2,
    decreases a.len(),
{
    lemma_split_groups_len(a.drop_last());
    if j < a.len() - 1 {
        lemma_separator_two_groups(a.drop_last(), j);
    }
}

/// The options group is exactly what comes before the first separator
/// (all of the arguments where there is none), also when that is empty.
pub proof fn lemma_first_group_is_prefix(a: Seq<Seq<char>>, k: int)
    requires
        0 <= k <= a.len(),
        forall|j: int| 0 <= j < k ==> a[j] != separator(),
        k == a.len() || a[k] == separator(),
    ensures
        segments(a)[0] == a.take(k),
    decreases a.len(),
{
    if k == a.len() {
        lemma_no_separator_one_group(a);
        assert(a.take(k) =~= a);
    } else if k == a.len() - 1 {
        lemma_no_separator_one_group(a.drop_last());
        assert(a.take(k) =~= a.drop_last());
    } else {
        let d = a.drop_last();
        lemma_first_group_is_prefix(d, k);
        lemma_separator_two_groups(d, k);
        assert(d.take(k) =~= a.take(k));
    }
}

proof fn lemma_non_empty_all_non_empty(gs: Seq<Seq<Seq<char>>>)
    ensures
        forall|j: int| 0 <= j < non_empty(gs).len() ==> non_empty(gs)[j].len() > 0,
    decreases gs.len(),
{
    if gs.len() > 0 {
        let d = gs.drop_last();
        lemma_non_empty_all_non_empty(d);
        if gs.last().len() > 0 {
            assert forall|j: int| 0 <= j < non_empty(gs).len() implies non_empty(gs)[j].len() > 0 by {
                if j < non_empty(d).len() {
                    assert(non_empty(gs)[j] == non_empty(d)[j]);
                }
            }
        }
    }
}

/// Every command group is non-empty: consecutive or trailing separators
/// produce no empty command.
pub proof fn lemma_command_groups_non_empty(a: Seq<Seq<char>>)
    ensures
        forall|j: int| 1 <= j < segments(a).len() ==> segments(a)[j].len() > 0,
{
    let g = split_groups(a);
    lemma_non_empty_all_non_empty(g.drop_first());
    assert forall|j: int| 1 <= j < segments(a).len() implies segments(a)[j].len() > 0 by {
        assert(segments(a)[j] == non_empty(g.drop_first())[j - 1]);
    }
}

proof fn lemma_split_groups_parts(a: Seq<Seq<char>>)
    ensures
        concat_groups(split_groups(a)) == without_separators(a),
        forall|i: int, j: int|
            0 <= i < split_groups(a).len() && 0 <= j < split_groups(a)[i].len()
                ==> split_groups(a)[i][j] != separator(),
    decreases a.len(),
{
    if a.len() == 0 {
        let e = Seq::<Seq<char>>::empty();
        assert(seq![e].drop_last() =~= Seq::<Seq<Seq<char>>>::empty());
        assert(concat_groups(seq![e]) == concat_groups(seq![e].drop_last()) + e);
        assert(concat_groups(split_groups(a)) =~= without_separators(a));
    } else {
        let d = a.drop_last();
        let rest = split_groups(d);
        lemma_split_groups_parts(d);
        lemma_split_groups_len(d);
        assert(a.drop_last() == d);
        if a.last() == separator() {
            assert(rest.push(Seq::empty()).drop_last() =~= rest);
            assert(concat_groups(split_groups(a)) =~= without_separators(a));
        } else {
            let u = rest.update(rest.len() - 1, rest.last().push(a.last()));
            assert(u.drop_last() =~= rest.drop_last());
            assert(concat_groups(rest) == concat_groups(rest.drop_last()) + rest.last());
            assert(concat_groups(u) =~= concat_groups(rest).push(a.last()));
            assert(concat_groups(split_groups(a)) =~= without_separators(a));
        }
    }
}

proof fn lemma_non_empty_parts(gs: Seq<Seq<Seq<char>>>)
    ensures
        concat_groups(non_empty(gs)) == concat_groups(gs),
        forall|i: int| 0 <= i < non_empty(gs).len() ==> gs.contains(#[trigger] non_empty(gs)[i]),
    decreases gs.len(),
{
    if gs.len() > 0 {
        let d = gs.drop_last();
        lemma_non_empty_parts(d);
        if gs.last().len() == 0 {
            assert(concat_groups(gs) =~= concat_groups(d));
        } else {
            assert(non_empty(gs).drop_last() =~= non_empty(d));
        }
        assert forall|i: int| 0 <= i < non_empty(gs).len() implies gs.contains(#[trigger] non_empty(gs)[i]) by {
            if i < non_empty(d).len() {
                let k = choose|k: int| 0 <= k < d.len() && d[k] == non_empty(d)[i];
                assert(gs[k] == d[k]);
            } else {
                assert(gs[gs.len() - 1] == gs.last());
            }
        }
    }
}

proof fn lemma_concat_groups_cons(x: Seq<Seq<char>>, gs: Seq<Seq<Seq<char>>>)
    ensures
        concat_groups(seq![x] + gs) == x + concat_groups(gs),
    decreases gs.len(),
{
    if gs.len() == 0 {
        assert(seq![x] + gs =~= seq![x]);
        assert(seq![x].drop_last() =~= Seq::<Seq<Seq<char>>>::empty());
        assert(x + concat_groups(gs) =~= x);
        assert(concat_groups(seq![x]) == concat_groups(seq![x].drop_last()) + x);
        assert(concat_groups(seq![x]) =~= x);
    } else {
        lemma_concat_groups_cons(x, gs.drop_last());
        assert((seq![x] + gs).drop_last() =~= seq![x] + gs.drop_last());
        assert(concat_groups(seq![x] + gs) =~= x + concat_groups(gs));
    }
}

/// A separator counts only as a whole token: no group holds `::`, and the
/// groups written one after the other give back every other token, unchanged
/// and in order (so `command::xxx` stays whole, in its group).
pub proof fn lemma_separator_only_whole_token(a: Seq<Seq<char>>)
    ensures
        concat_groups(segments(a)) == without_separators(a),
        forall|i: int, j: int|
            0 <= i < segments(a).len() && 0 <= j < segments(a)[i].len()
                ==> segments(a)[i][j] != separator(),
{
    let g = split_groups(a);
    lemma_split_groups_len(a);
    lemma_split_groups_parts(a);
    lemma_non_empty_parts(g.drop_first());
    assert(g =~= seq![g[0]] + g.drop_first());
    lemma_concat_groups_cons(g[0], non_empty(g.drop_first()));
    lemma_concat_groups_cons(g[0], g.drop_first());
    assert forall|i: int, j: int|
        0 <= i < segments(a).len() && 0 <= j < segments(a)[i].len()
            implies segments(a)[i][j] != separator() by {
        if i > 0 {
            let x = non_empty(g.drop_first())[i - 1];
            assert(segments(a)[i] == x);
            assert(g.drop_first().contains(x));
            let k = choose|k: int| 0 <= k < g.drop_first().len() && g.drop_first()[k] == x;
            assert(g[k + 1] == x);
        }
    }
}

} // verus!
