use vimlrs::typval_defs::{typval_T, typval_vval_union, dict_T, dictitem_T, list_T, VarType, VarLockStatus};
use vimlrs::fuzzy::{has_match, fuzzy_match, f_matchfuzzy, f_matchfuzzypos, sort_matches, FuzzyItem};

fn tv(t: VarType, v: typval_vval_union) -> typval_T {
    typval_T { v_type: t, v_lock: VarLockStatus::VAR_UNLOCKED, vval: v }
}
fn nr(n: i64) -> typval_T {
    tv(VarType::VAR_NUMBER, typval_vval_union::v_number(n))
}
fn s(x: &str) -> typval_T {
    tv(VarType::VAR_STRING, typval_vval_union::v_string(x.as_bytes().to_vec()))
}
fn dict_of(entries: Vec<(&str, typval_T)>) -> typval_T {
    let items = entries.into_iter().map(|(k, v)| dictitem_T { di_key: k.as_bytes().to_vec(), di_tv: v }).collect();
    tv(VarType::VAR_DICT, typval_vval_union::v_dict(Some(dict_T { dv_hashtab: items, dv_lock: VarLockStatus::VAR_UNLOCKED, dv_refcount: 0, dv_watchers: Vec::new() })))
}
fn list_of(items: Vec<typval_T>) -> typval_T {
    tv(VarType::VAR_LIST, typval_vval_union::v_list(Some(list_T { lv_items: items, lv_lock: VarLockStatus::VAR_UNLOCKED, lv_refcount: 0 })))
}
fn items_of(t: &typval_T) -> &Vec<typval_T> {
    match &t.vval {
        typval_vval_union::v_list(Some(l)) => &l.lv_items,
        _ => panic!("not a List"),
    }
}
fn str_of(t: &typval_T) -> String {
    match &t.vval { typval_vval_union::v_string(v) => String::from_utf8(v.clone()).unwrap(), _ => panic!("not a String") }
}
fn num_of(t: &typval_T) -> i64 {
    match t.vval { typval_vval_union::v_number(n) => n, _ => panic!("not a Number") }
}
fn strs(t: &typval_T) -> Vec<String> {
    items_of(t).iter().map(str_of).collect()
}

/// A stand-in scorer: longer words score more, longer texts less; positions
/// count from the first byte of the text that equals the word's first byte.
fn score(w: &[u8], t: &[u8]) -> (Option<i32>, Vec<u32>) {
    let start = t.iter().position(|b| Some(b) == w.first()).unwrap_or(0) as u32;
    (Some(w.len() as i32 * 10 - t.len() as i32), (0..w.len() as u32).map(|k| start + k).collect())
}

#[test]
fn has_match_in_order_and_upper_case() {
    assert!(has_match(b"abc", b"aXbYc"));
    assert!(has_match(b"abc", b"ABC"));
    assert!(!has_match(b"ABC", b"abc"));
    assert!(!has_match(b"acb", b"abc"));
    assert!(!has_match(b"", b"abc"));
    assert!(has_match("é".as_bytes(), "café".as_bytes()));
}

#[test]
fn fuzzy_match_sums_word_scores() {
    let mut m = vec![0u32; 1024];
    let r = fuzzy_match(b"abxcd", b"ab  cd", false, &mut m, &score);
    assert_eq!(r, (true, (20 - 5) + (20 - 5)));
    assert_eq!(&m[0..4], &[0, 1, 3, 4]);
}

#[test]
fn fuzzy_match_fails_on_one_word() {
    let mut m = vec![0u32; 1024];
    assert_eq!(fuzzy_match(b"abxcd", b"ab zz", false, &mut m, &score), (false, i32::MIN));
    assert_eq!(fuzzy_match(b"abc", b"   ", false, &mut m, &score), (false, 0));
    assert_eq!(fuzzy_match(b"abc", b"", true, &mut m, &score), (false, i32::MIN));
}

#[test]
fn fuzzy_match_saturates() {
    let big = |_w: &[u8], _t: &[u8]| (Some(i32::MAX), vec![0u32]);
    let mut m = vec![0u32; 1024];
    assert_eq!(fuzzy_match(b"a b", b"a b", false, &mut m, &big), (true, i32::MAX));
    let none = |_w: &[u8], _t: &[u8]| (None, Vec::new());
    assert_eq!(fuzzy_match(b"a", b"a", false, &mut m, &none), (false, i32::MIN));
}

#[test]
fn matchfuzzy_best_first() {
    let args = vec![list_of(vec![s("foobar"), s("bar"), s("foo"), nr(3)]), s("foo")];
    let mut ret = nr(0);
    f_matchfuzzy(&args, &mut ret, &score);
    assert_eq!(strs(&ret), vec!["foo", "foobar"]);
}

#[test]
fn matchfuzzy_exact_match_wins_a_tie() {
    let same = |w: &[u8], t: &[u8]| {
        let start = t.windows(w.len()).position(|x| x == w).map(|p| p as u32).unwrap_or(1);
        (Some(5), vec![start])
    };
    let args = vec![list_of(vec![s("xfxoxo"), s("xfoo")]), s("foo")];
    let mut ret = nr(0);
    f_matchfuzzy(&args, &mut ret, &same);
    assert_eq!(strs(&ret), vec!["xfoo", "xfxoxo"]);
}

#[test]
fn matchfuzzy_limit_and_key() {
    let args = vec![list_of(vec![s("fa"), s("fb"), s("fc")]), s("f"), dict_of(vec![("limit", nr(2))])];
    let mut ret = nr(0);
    f_matchfuzzy(&args, &mut ret, &score);
    assert_eq!(strs(&ret), vec!["fa", "fb"]);
    let items = vec![dict_of(vec![("name", s("alpha"))]), dict_of(vec![("name", s("beta"))]), s("alpha")];
    let args = vec![list_of(items), s("al"), dict_of(vec![("key", s("name"))])];
    let mut ret = nr(0);
    f_matchfuzzy(&args, &mut ret, &score);
    assert_eq!(items_of(&ret).len(), 1);
    assert_eq!(items_of(&ret)[0].v_type, VarType::VAR_DICT);
}

#[test]
fn matchfuzzy_refused_arguments() {
    let mut ret = nr(7);
    f_matchfuzzy(&[s("x"), s("x")], &mut ret, &score);
    assert_eq!(num_of(&ret), 7);
    f_matchfuzzy(&[list_of(vec![]), nr(1)], &mut ret, &score);
    assert_eq!(num_of(&ret), 7);
    f_matchfuzzy(&[list_of(vec![]), s("a"), dict_of(vec![("key", s(""))])], &mut ret, &score);
    assert_eq!(num_of(&ret), 7);
    f_matchfuzzy(&[list_of(vec![]), s("a"), dict_of(vec![("limit", s("2"))])], &mut ret, &score);
    assert_eq!(num_of(&ret), 7);
    f_matchfuzzy(&[list_of(vec![]), s("a"), nr(1)], &mut ret, &score);
    assert_eq!(num_of(&ret), 7);
}

#[test]
fn matchfuzzypos_three_lists() {
    let args = vec![list_of(vec![s("xab"), s("ab")]), s("ab")];
    let mut ret = nr(0);
    f_matchfuzzypos(&args, &mut ret, &score);
    let parts = items_of(&ret);
    assert_eq!(parts.len(), 3);
    assert_eq!(strs(&parts[0]), vec!["ab", "xab"]);
    let pos: Vec<Vec<i64>> = items_of(&parts[1]).iter().map(|p| items_of(p).iter().map(num_of).collect()).collect();
    assert_eq!(pos, vec![vec![0, 1], vec![1, 2]]);
    let scores: Vec<i64> = items_of(&parts[2]).iter().map(num_of).collect();
    assert_eq!(scores, vec![18, 17]);
    let mut ret = nr(0);
    f_matchfuzzypos(&[list_of(vec![s("zz")]), s("ab")], &mut ret, &score);
    assert_eq!(items_of(&ret).len(), 3);
    assert!(items_of(&items_of(&ret)[0]).is_empty());
}

#[test]
fn sort_matches_orders_by_score_then_place() {
    let mk = |idx: usize, score: i32| FuzzyItem { idx, item: idx, score, startpos: 0, itemstr: Vec::new(), lmatchpos: Vec::new() };
    let r = sort_matches(vec![mk(0, 1), mk(1, 5), mk(2, 1), mk(3, 9)], b"q");
    let order: Vec<usize> = r.iter().map(|f| f.idx).collect();
    assert_eq!(order, vec![3, 1, 0, 2]);
}
