//! Builtins about editor state that this evaluator does not have (screen, windows, buffers, jobs, servers, timers): each gives the answer Vim gives when that state is empty.
use vstd::prelude::*;
use crate::typval_defs::{
    varnumber_T, OK, FAIL, VarType, VarLockStatus, BoolVarValue, SpecialVarValue, typval_vval_union,
    typval_T, list_T, dict_T, dictitem_T, blob_T, partial_T, Callback, DictWatcher, TypVal, VVal,
    ListVal, DictVal, BlobVal, CallbackVal, WatcherVal, tv_view, list_view, dict_view, items_view, dict_index_of,
    mk_tv, num_tv, str_tv, list_tv, blob_tv, dict_tv, empty_dict_val, dict_wf, keys_unique,
    lemma_items_view_ext, lemma_items_view_index, lemma_items_view_push, lemma_items_view_subrange,
    lemma_items_view_add, lemma_items_view_reverse, lemma_items_view_update, lemma_items_view_insert,
    lemma_items_view_remove, lemma_items_view_empty,
};
use crate::charset::{nr2str, nr2bytes, str2nr, str2nr_all};
use crate::dup::{bytes_dup, tv_dup, list_dup, dict_dup, blob_dup, items_dup, slice_to_vec, callback_dup, append_bytes};
use crate::typval::{
    number_of, number_chk_result, string_of, string_or_empty, tv_get_number_chk, tv_get_number,
    tv_get_bool, tv_get_string, tv_get_string_chk, tv_get_string_buf_chk, tv_equal, tv_equal_spec,
    bytes_eq, dict_find_index,
};
use crate::typval_list::{empty_list_val, string_tv, number_tv, tv_list_alloc_ret};
use crate::typval_dict::tv_dict_alloc_ret;
use crate::funcs_basic::{with_number, with_string, with_list};

verus! {

/// "reg_recording()": No macro is ever being recorded: the empty string.
pub fn f_reg_recording(argvars: &[typval_T], rettv: &mut typval_T)
    ensures final(rettv)@ == str_tv(Seq::<u8>::empty()),
{
    *rettv = string_tv(Vec::new());
}

/// "reg_executing()": No macro playback: "".
pub fn f_reg_executing(argvars: &[typval_T], rettv: &mut typval_T)
    ensures final(rettv)@ == str_tv(Seq::<u8>::empty()),
{
    *rettv = string_tv(Vec::new());
}

/// "reg_recorded()": No macro recording: "".
pub fn f_reg_recorded(argvars: &[typval_T], rettv: &mut typval_T)
    ensures final(rettv)@ == str_tv(Seq::<u8>::empty()),
{
    *rettv = string_tv(Vec::new());
}

/// "garbagecollect()": Values are owned, not collected: nothing to do.
pub fn f_garbagecollect(argvars: &[typval_T], rettv: &mut typval_T)
    ensures final(rettv)@ == old(rettv)@,
{
    
}

/// "mode()": Always Normal mode: "n".
pub fn f_mode(argvars: &[typval_T], rettv: &mut typval_T)
    ensures final(rettv)@ == str_tv(seq![110u8]),
{
    let s: Vec<u8> = vec![110u8];
    assert(s@ =~= seq![110u8]);
    *rettv = string_tv(s);
}

/// "state()": No pending state: "".
pub fn f_state(argvars: &[typval_T], rettv: &mut typval_T)
    ensures final(rettv)@ == str_tv(Seq::<u8>::empty()),
{
    *rettv = string_tv(Vec::new());
}

/// "visualmode()": No prior Visual selection: "".
pub fn f_visualmode(argvars: &[typval_T], rettv: &mut typval_T)
    ensures final(rettv)@ == str_tv(Seq::<u8>::empty()),
{
    *rettv = string_tv(Vec::new());
}

/// "pumvisible()": No popup menu: 0.
pub fn f_pumvisible(argvars: &[typval_T], rettv: &mut typval_T)
    ensures final(rettv)@ == num_tv(0),
{
    *rettv = number_tv(0);
}

/// "wildmenumode()": No wildmenu: 0.
pub fn f_wildmenumode(argvars: &[typval_T], rettv: &mut typval_T)
    ensures final(rettv)@ == num_tv(0),
{
    *rettv = number_tv(0);
}

/// "did_filetype()": No filetype autocommands: 0.
pub fn f_did_filetype(argvars: &[typval_T], rettv: &mut typval_T)
    ensures final(rettv)@ == num_tv(0),
{
    *rettv = number_tv(0);
}

/// "eventhandler()": Not inside an event handler: 0.
pub fn f_eventhandler(argvars: &[typval_T], rettv: &mut typval_T)
    ensures final(rettv)@ == num_tv(0),
{
    *rettv = number_tv(0);
}

/// "windowsversion()": Non-Windows: "".
pub fn f_windowsversion(argvars: &[typval_T], rettv: &mut typval_T)
    ensures final(rettv)@ == str_tv(Seq::<u8>::empty()),
{
    *rettv = string_tv(Vec::new());
}

/// "getfontname()": No GUI: "".
pub fn f_getfontname(argvars: &[typval_T], rettv: &mut typval_T)
    ensures final(rettv)@ == str_tv(Seq::<u8>::empty()),
{
    *rettv = string_tv(Vec::new());
}

/// "foreground()": No UI to raise: 0 (no-op).
pub fn f_foreground(argvars: &[typval_T], rettv: &mut typval_T)
    ensures final(rettv)@ == num_tv(0),
{
    *rettv = number_tv(0);
}

/// "prompt_getprompt()": No prompt buffer: "".
pub fn f_prompt_getprompt(argvars: &[typval_T], rettv: &mut typval_T)
    ensures final(rettv)@ == str_tv(Seq::<u8>::empty()),
{
    *rettv = string_tv(Vec::new());
}

/// "pum_getpos()": No popup menu: empty Dict.
pub fn f_pum_getpos(argvars: &[typval_T], rettv: &mut typval_T)
    ensures final(rettv)@ == (TypVal { ty: VarType::VAR_DICT, v: VVal::Dict(Some(empty_dict_val())), ..old(rettv)@ }),
{
    tv_dict_alloc_ret(rettv);
}

/// "serverlist()": No server: empty List.
pub fn f_serverlist(argvars: &[typval_T], rettv: &mut typval_T)
    ensures final(rettv)@ == with_list(old(rettv)@, Seq::empty()),
{
    tv_list_alloc_ret(rettv, 0);
}

/// "screenrow()": No UI grid: 0.
pub fn f_screenrow(argvars: &[typval_T], rettv: &mut typval_T)
    ensures final(rettv)@ == num_tv(0),
{
    *rettv = number_tv(0);
}

/// "screencol()": No UI grid: 0.
pub fn f_screencol(argvars: &[typval_T], rettv: &mut typval_T)
    ensures final(rettv)@ == num_tv(0),
{
    *rettv = number_tv(0);
}

/// "screenchar()": Off-grid (there is no grid): -1.
pub fn f_screenchar(argvars: &[typval_T], rettv: &mut typval_T)
    ensures final(rettv)@ == num_tv(-1),
{
    *rettv = number_tv(-1);
}

/// "screenattr()": Off-grid: -1.
pub fn f_screenattr(argvars: &[typval_T], rettv: &mut typval_T)
    ensures final(rettv)@ == num_tv(-1),
{
    *rettv = number_tv(-1);
}

/// "screenchars()": There is no screen grid: an empty List.
pub fn f_screenchars(argvars: &[typval_T], rettv: &mut typval_T)
    ensures final(rettv)@ == with_list(old(rettv)@, Seq::empty()),
{
    tv_list_alloc_ret(rettv, 0);
}

/// "screenstring()": There is no screen grid: the empty string.
pub fn f_screenstring(argvars: &[typval_T], rettv: &mut typval_T)
    ensures final(rettv)@ == str_tv(Seq::<u8>::empty()),
{
    *rettv = string_tv(Vec::new());
}

/// "tagfiles()": No `'tags'` files: empty List.
pub fn f_tagfiles(argvars: &[typval_T], rettv: &mut typval_T)
    ensures final(rettv)@ == with_list(old(rettv)@, Seq::empty()),
{
    tv_list_alloc_ret(rettv, 0);
}

/// "tabpagebuflist()": There are no windows: 0.
pub fn f_tabpagebuflist(argvars: &[typval_T], rettv: &mut typval_T)
    ensures final(rettv)@ == num_tv(0),
{
    *rettv = number_tv(0);
}

/// "searchdecl()": Declaration not found: 1.
pub fn f_searchdecl(argvars: &[typval_T], rettv: &mut typval_T)
    ensures final(rettv)@ == num_tv(1),
{
    *rettv = number_tv(1);
}

/// "inputsave()": Nothing is typed ahead, so there is nothing to save: 0.
pub fn f_inputsave(argvars: &[typval_T], rettv: &mut typval_T)
    ensures final(rettv)@ == num_tv(0),
{
    *rettv = number_tv(0);
}

/// "inputrestore()": Nothing was saved: 0.
pub fn f_inputrestore(argvars: &[typval_T], rettv: &mut typval_T)
    ensures final(rettv)@ == num_tv(0),
{
    *rettv = number_tv(0);
}

/// "synID()": No syntax highlighter: id 0.
pub fn f_synID(argvars: &[typval_T], rettv: &mut typval_T)
    ensures final(rettv)@ == num_tv(0),
{
    *rettv = number_tv(0);
}

/// "synIDtrans()": No syntax: translated id 0.
pub fn f_synIDtrans(argvars: &[typval_T], rettv: &mut typval_T)
    ensures final(rettv)@ == num_tv(0),
{
    *rettv = number_tv(0);
}

/// "synstack()": There is no syntax state: an empty List.
pub fn f_synstack(argvars: &[typval_T], rettv: &mut typval_T)
    ensures final(rettv)@ == with_list(old(rettv)@, Seq::empty()),
{
    tv_list_alloc_ret(rettv, 0);
}

/// "changenr()": There is no undo history: 0.
pub fn f_changenr(argvars: &[typval_T], rettv: &mut typval_T)
    ensures final(rettv)@ == num_tv(0),
{
    *rettv = number_tv(0);
}

/// "swapname()": No swap file: "".
pub fn f_swapname(argvars: &[typval_T], rettv: &mut typval_T)
    ensures final(rettv)@ == str_tv(Seq::<u8>::empty()),
{
    *rettv = string_tv(Vec::new());
}

/// "swapfilelist()": No swap files: empty List.
pub fn f_swapfilelist(argvars: &[typval_T], rettv: &mut typval_T)
    ensures final(rettv)@ == with_list(old(rettv)@, Seq::empty()),
{
    tv_list_alloc_ret(rettv, 0);
}

/// "spellsuggest()": No spell checker: empty List.
pub fn f_spellsuggest(argvars: &[typval_T], rettv: &mut typval_T)
    ensures final(rettv)@ == with_list(old(rettv)@, Seq::empty()),
{
    tv_list_alloc_ret(rettv, 0);
}

/// "getregionpos()": No buffer/selection: empty List.
pub fn f_getregionpos(argvars: &[typval_T], rettv: &mut typval_T)
    ensures final(rettv)@ == with_list(old(rettv)@, Seq::empty()),
{
    tv_list_alloc_ret(rettv, 0);
}

/// "menu_get()": No menus: empty List.
pub fn f_menu_get(argvars: &[typval_T], rettv: &mut typval_T)
    ensures final(rettv)@ == with_list(old(rettv)@, Seq::empty()),
{
    tv_list_alloc_ret(rettv, 0);
}

/// "timer_info()": No event-loop timers: empty List.
pub fn f_timer_info(argvars: &[typval_T], rettv: &mut typval_T)
    ensures final(rettv)@ == with_list(old(rettv)@, Seq::empty()),
{
    tv_list_alloc_ret(rettv, 0);
}

/// "timer_start()": No event loop to schedule on: -1.
pub fn f_timer_start(argvars: &[typval_T], rettv: &mut typval_T)
    ensures final(rettv)@ == num_tv(-1),
{
    *rettv = number_tv(-1);
}

/// "timer_stop()": There are no timers: 0.
pub fn f_timer_stop(argvars: &[typval_T], rettv: &mut typval_T)
    ensures final(rettv)@ == num_tv(0),
{
    *rettv = number_tv(0);
}

/// "timer_pause()": There are no timers: 0.
pub fn f_timer_pause(argvars: &[typval_T], rettv: &mut typval_T)
    ensures final(rettv)@ == num_tv(0),
{
    *rettv = number_tv(0);
}

/// "timer_stopall()": There are no timers: 0.
pub fn f_timer_stopall(argvars: &[typval_T], rettv: &mut typval_T)
    ensures final(rettv)@ == num_tv(0),
{
    *rettv = number_tv(0);
}

/// "setcharsearch()": The `f`/`t` search state is not kept: nothing changes, 0.
pub fn f_setcharsearch(argvars: &[typval_T], rettv: &mut typval_T)
    ensures final(rettv)@ == num_tv(0),
{
    *rettv = number_tv(0);
}

/// "settagstack()": There is no tag stack to change: 0.
pub fn f_settagstack(argvars: &[typval_T], rettv: &mut typval_T)
    ensures final(rettv)@ == num_tv(0),
{
    *rettv = number_tv(0);
}

/// "bufexists()": No buffers: 0.
pub fn f_bufexists(argvars: &[typval_T], rettv: &mut typval_T)
    ensures final(rettv)@ == num_tv(0),
{
    *rettv = number_tv(0);
}

/// "buflisted()": No buffers: 0.
pub fn f_buflisted(argvars: &[typval_T], rettv: &mut typval_T)
    ensures final(rettv)@ == num_tv(0),
{
    *rettv = number_tv(0);
}

/// "bufloaded()": No buffers: 0.
pub fn f_bufloaded(argvars: &[typval_T], rettv: &mut typval_T)
    ensures final(rettv)@ == num_tv(0),
{
    *rettv = number_tv(0);
}

/// "bufwinnr()": No window: -1.
pub fn f_bufwinnr(argvars: &[typval_T], rettv: &mut typval_T)
    ensures final(rettv)@ == num_tv(-1),
{
    *rettv = number_tv(-1);
}

/// "bufwinid()": No window: -1.
pub fn f_bufwinid(argvars: &[typval_T], rettv: &mut typval_T)
    ensures final(rettv)@ == num_tv(-1),
{
    *rettv = number_tv(-1);
}

/// "winnr()": The single implicit window: 1.
pub fn f_winnr(argvars: &[typval_T], rettv: &mut typval_T)
    ensures final(rettv)@ == num_tv(1),
{
    *rettv = number_tv(1);
}

/// "winbufnr()": No buffer in the window: -1.
pub fn f_winbufnr(argvars: &[typval_T], rettv: &mut typval_T)
    ensures final(rettv)@ == num_tv(-1),
{
    *rettv = number_tv(-1);
}

/// "winwidth()": No measurable window: -1.
pub fn f_winwidth(argvars: &[typval_T], rettv: &mut typval_T)
    ensures final(rettv)@ == num_tv(-1),
{
    *rettv = number_tv(-1);
}

/// "winheight()": No measurable window: -1.
pub fn f_winheight(argvars: &[typval_T], rettv: &mut typval_T)
    ensures final(rettv)@ == num_tv(-1),
{
    *rettv = number_tv(-1);
}

/// "winlayout()": No window tree: empty List.
pub fn f_winlayout(argvars: &[typval_T], rettv: &mut typval_T)
    ensures final(rettv)@ == with_list(old(rettv)@, Seq::empty()),
{
    tv_list_alloc_ret(rettv, 0);
}

/// "winline()": No screen: cursor window row 0.
pub fn f_winline(argvars: &[typval_T], rettv: &mut typval_T)
    ensures final(rettv)@ == num_tv(0),
{
    *rettv = number_tv(0);
}

/// "wincol()": No screen: cursor window column 0.
pub fn f_wincol(argvars: &[typval_T], rettv: &mut typval_T)
    ensures final(rettv)@ == num_tv(0),
{
    *rettv = number_tv(0);
}

/// "winrestcmd()": No windows to restore: "".
pub fn f_winrestcmd(argvars: &[typval_T], rettv: &mut typval_T)
    ensures final(rettv)@ == str_tv(Seq::<u8>::empty()),
{
    *rettv = string_tv(Vec::new());
}

/// "tabpagenr()": The single implicit tab page: 1.
pub fn f_tabpagenr(argvars: &[typval_T], rettv: &mut typval_T)
    ensures final(rettv)@ == num_tv(1),
{
    *rettv = number_tv(1);
}

/// "tabpagewinnr()": One window in the tab page: 1.
pub fn f_tabpagewinnr(argvars: &[typval_T], rettv: &mut typval_T)
    ensures final(rettv)@ == num_tv(1),
{
    *rettv = number_tv(1);
}

/// "getwininfo()": No windows: empty List.
pub fn f_getwininfo(argvars: &[typval_T], rettv: &mut typval_T)
    ensures final(rettv)@ == with_list(old(rettv)@, Seq::empty()),
{
    tv_list_alloc_ret(rettv, 0);
}

/// "gettabinfo()": No tab pages: empty List.
pub fn f_gettabinfo(argvars: &[typval_T], rettv: &mut typval_T)
    ensures final(rettv)@ == with_list(old(rettv)@, Seq::empty()),
{
    tv_list_alloc_ret(rettv, 0);
}

/// "getwinposx()": No GUI: -1.
pub fn f_getwinposx(argvars: &[typval_T], rettv: &mut typval_T)
    ensures final(rettv)@ == num_tv(-1),
{
    *rettv = number_tv(-1);
}

/// "getwinposy()": No GUI: -1.
pub fn f_getwinposy(argvars: &[typval_T], rettv: &mut typval_T)
    ensures final(rettv)@ == num_tv(-1),
{
    *rettv = number_tv(-1);
}

/// "win_getid()": No window: 0.
pub fn f_win_getid(argvars: &[typval_T], rettv: &mut typval_T)
    ensures final(rettv)@ == num_tv(0),
{
    *rettv = number_tv(0);
}

/// "win_id2win()": Id not found: 0.
pub fn f_win_id2win(argvars: &[typval_T], rettv: &mut typval_T)
    ensures final(rettv)@ == num_tv(0),
{
    *rettv = number_tv(0);
}

/// "win_findbuf()": No windows: empty List.
pub fn f_win_findbuf(argvars: &[typval_T], rettv: &mut typval_T)
    ensures final(rettv)@ == with_list(old(rettv)@, Seq::empty()),
{
    tv_list_alloc_ret(rettv, 0);
}

/// "win_gotoid()": No window to go to: 0 (FAIL).
pub fn f_win_gotoid(argvars: &[typval_T], rettv: &mut typval_T)
    ensures final(rettv)@ == num_tv(0),
{
    *rettv = number_tv(0);
}

/// "win_gettype()": Id invalid (no window): "unknown".
pub fn f_win_gettype(argvars: &[typval_T], rettv: &mut typval_T)
    ensures final(rettv)@ == str_tv(seq![117u8,110u8,107u8,110u8,111u8,119u8,110u8]),
{
    let s: Vec<u8> = vec![117u8,110u8,107u8,110u8,111u8,119u8,110u8];
    assert(s@ =~= seq![117u8,110u8,107u8,110u8,111u8,119u8,110u8]);
    *rettv = string_tv(s);
}

/// "win_splitmove()": No window: -1 (FAIL).
pub fn f_win_splitmove(argvars: &[typval_T], rettv: &mut typval_T)
    ensures final(rettv)@ == num_tv(-1),
{
    *rettv = number_tv(-1);
}

/// "win_move_separator()": No window: 0 (false).
pub fn f_win_move_separator(argvars: &[typval_T], rettv: &mut typval_T)
    ensures final(rettv)@ == num_tv(0),
{
    *rettv = number_tv(0);
}

/// "win_move_statusline()": No window: 0 (false).
pub fn f_win_move_statusline(argvars: &[typval_T], rettv: &mut typval_T)
    ensures final(rettv)@ == num_tv(0),
{
    *rettv = number_tv(0);
}

/// "getcmdwintype()": Not in the command-line window: "".
pub fn f_getcmdwintype(argvars: &[typval_T], rettv: &mut typval_T)
    ensures final(rettv)@ == str_tv(Seq::<u8>::empty()),
{
    *rettv = string_tv(Vec::new());
}

/// "winrestview()": No window to restore: no-op (0).
pub fn f_winrestview(argvars: &[typval_T], rettv: &mut typval_T)
    ensures final(rettv)@ == num_tv(0),
{
    *rettv = number_tv(0);
}

/// "bufload()": No buffers to load: no-op (0).
pub fn f_bufload(argvars: &[typval_T], rettv: &mut typval_T)
    ensures final(rettv)@ == num_tv(0),
{
    *rettv = number_tv(0);
}

/// "prompt_getinput()": No prompt buffer: "".
pub fn f_prompt_getinput(argvars: &[typval_T], rettv: &mut typval_T)
    ensures final(rettv)@ == str_tv(Seq::<u8>::empty()),
{
    *rettv = string_tv(Vec::new());
}

/// "prompt_setprompt()": No prompt buffer: no-op (0).
pub fn f_prompt_setprompt(argvars: &[typval_T], rettv: &mut typval_T)
    ensures final(rettv)@ == num_tv(0),
{
    *rettv = number_tv(0);
}

/// "prompt_setcallback()": No prompt buffer: no-op (0).
pub fn f_prompt_setcallback(argvars: &[typval_T], rettv: &mut typval_T)
    ensures final(rettv)@ == num_tv(0),
{
    *rettv = number_tv(0);
}

/// "prompt_setinterrupt()": No prompt buffer: no-op (0).
pub fn f_prompt_setinterrupt(argvars: &[typval_T], rettv: &mut typval_T)
    ensures final(rettv)@ == num_tv(0),
{
    *rettv = number_tv(0);
}

/// "interrupt()": There is no interactive command to interrupt: 0.
pub fn f_interrupt(argvars: &[typval_T], rettv: &mut typval_T)
    ensures final(rettv)@ == num_tv(0),
{
    *rettv = number_tv(0);
}

/// "debugbreak()": No process to signal: FAIL (0).
pub fn f_debugbreak(argvars: &[typval_T], rettv: &mut typval_T)
    ensures final(rettv)@ == num_tv(0),
{
    *rettv = number_tv(0);
}

/// "api_info()": No embedded API: empty Dict.
pub fn f_api_info(argvars: &[typval_T], rettv: &mut typval_T)
    ensures final(rettv)@ == (TypVal { ty: VarType::VAR_DICT, v: VVal::Dict(Some(empty_dict_val())), ..old(rettv)@ }),
{
    tv_dict_alloc_ret(rettv);
}

/// "serverstart()": No server: "".
pub fn f_serverstart(argvars: &[typval_T], rettv: &mut typval_T)
    ensures final(rettv)@ == str_tv(Seq::<u8>::empty()),
{
    *rettv = string_tv(Vec::new());
}

/// "serverstop()": No server: no-op (0).
pub fn f_serverstop(argvars: &[typval_T], rettv: &mut typval_T)
    ensures final(rettv)@ == num_tv(0),
{
    *rettv = number_tv(0);
}

/// "setbufvar()": No buffer: no-op (0).
pub fn f_setbufvar(argvars: &[typval_T], rettv: &mut typval_T)
    ensures final(rettv)@ == num_tv(0),
{
    *rettv = number_tv(0);
}

/// "setwinvar()": No window: no-op (0).
pub fn f_setwinvar(argvars: &[typval_T], rettv: &mut typval_T)
    ensures final(rettv)@ == num_tv(0),
{
    *rettv = number_tv(0);
}

/// "settabvar()": No tab page: no-op (0).
pub fn f_settabvar(argvars: &[typval_T], rettv: &mut typval_T)
    ensures final(rettv)@ == num_tv(0),
{
    *rettv = number_tv(0);
}

/// "settabwinvar()": No tab/window: no-op (0).
pub fn f_settabwinvar(argvars: &[typval_T], rettv: &mut typval_T)
    ensures final(rettv)@ == num_tv(0),
{
    *rettv = number_tv(0);
}

/// "jobstart()": No event loop to run the job: -1.
pub fn f_jobstart(argvars: &[typval_T], rettv: &mut typval_T)
    ensures final(rettv)@ == num_tv(-1),
{
    *rettv = number_tv(-1);
}

/// "jobpid()": No job: 0.
pub fn f_jobpid(argvars: &[typval_T], rettv: &mut typval_T)
    ensures final(rettv)@ == num_tv(0),
{
    *rettv = number_tv(0);
}

/// "jobstop()": No job to stop: 0.
pub fn f_jobstop(argvars: &[typval_T], rettv: &mut typval_T)
    ensures final(rettv)@ == num_tv(0),
{
    *rettv = number_tv(0);
}

/// "jobwait()": No jobs: empty List.
pub fn f_jobwait(argvars: &[typval_T], rettv: &mut typval_T)
    ensures final(rettv)@ == with_list(old(rettv)@, Seq::empty()),
{
    tv_list_alloc_ret(rettv, 0);
}

/// "jobresize()": No job: 0.
pub fn f_jobresize(argvars: &[typval_T], rettv: &mut typval_T)
    ensures final(rettv)@ == num_tv(0),
{
    *rettv = number_tv(0);
}

/// "chanclose()": No channel: 0.
pub fn f_chanclose(argvars: &[typval_T], rettv: &mut typval_T)
    ensures final(rettv)@ == num_tv(0),
{
    *rettv = number_tv(0);
}

/// "chansend()": No channel: 0 bytes sent.
pub fn f_chansend(argvars: &[typval_T], rettv: &mut typval_T)
    ensures final(rettv)@ == num_tv(0),
{
    *rettv = number_tv(0);
}

/// "feedkeys()": No typeahead buffer: no-op (0).
pub fn f_feedkeys(argvars: &[typval_T], rettv: &mut typval_T)
    ensures final(rettv)@ == num_tv(0),
{
    *rettv = number_tv(0);
}

/// "wait()": There is no event loop to wait on: -1.
pub fn f_wait(argvars: &[typval_T], rettv: &mut typval_T)
    ensures final(rettv)@ == num_tv(-1),
{
    *rettv = number_tv(-1);
}

/// "sockconnect()": No event loop: 0 (no channel).
pub fn f_sockconnect(argvars: &[typval_T], rettv: &mut typval_T)
    ensures final(rettv)@ == num_tv(0),
{
    *rettv = number_tv(0);
}

/// "win_execute()": No window to run the command in: "".
pub fn f_win_execute(argvars: &[typval_T], rettv: &mut typval_T)
    ensures final(rettv)@ == str_tv(Seq::<u8>::empty()),
{
    *rettv = string_tv(Vec::new());
}

/// "bufadd()": No buffer list: 0.
pub fn f_bufadd(argvars: &[typval_T], rettv: &mut typval_T)
    ensures final(rettv)@ == num_tv(0),
{
    *rettv = number_tv(0);
}

/// "ctxget()": Empty context stack: empty Dict.
pub fn f_ctxget(argvars: &[typval_T], rettv: &mut typval_T)
    ensures final(rettv)@ == (TypVal { ty: VarType::VAR_DICT, v: VVal::Dict(Some(empty_dict_val())), ..old(rettv)@ }),
{
    tv_dict_alloc_ret(rettv);
}

/// "ctxpop()": Nothing to pop: no-op (0).
pub fn f_ctxpop(argvars: &[typval_T], rettv: &mut typval_T)
    ensures final(rettv)@ == num_tv(0),
{
    *rettv = number_tv(0);
}

/// "ctxpush()": No-op (0).
pub fn f_ctxpush(argvars: &[typval_T], rettv: &mut typval_T)
    ensures final(rettv)@ == num_tv(0),
{
    *rettv = number_tv(0);
}

/// "ctxset()": No-op (0).
pub fn f_ctxset(argvars: &[typval_T], rettv: &mut typval_T)
    ensures final(rettv)@ == num_tv(0),
{
    *rettv = number_tv(0);
}

/// "ctxsize()": Empty stack: 0.
pub fn f_ctxsize(argvars: &[typval_T], rettv: &mut typval_T)
    ensures final(rettv)@ == num_tv(0),
{
    *rettv = number_tv(0);
}

/// "last_buffer_nr()": No buffers: 0.
pub fn f_last_buffer_nr(argvars: &[typval_T], rettv: &mut typval_T)
    ensures final(rettv)@ == num_tv(0),
{
    *rettv = number_tv(0);
}

/// "libcall()": No dynamic library loading: "".
pub fn f_libcall(argvars: &[typval_T], rettv: &mut typval_T)
    ensures final(rettv)@ == str_tv(Seq::<u8>::empty()),
{
    *rettv = string_tv(Vec::new());
}

/// "libcallnr()": No dynamic library loading: 0.
pub fn f_libcallnr(argvars: &[typval_T], rettv: &mut typval_T)
    ensures final(rettv)@ == num_tv(0),
{
    *rettv = number_tv(0);
}

/// "rpcnotify()": No RPC channel: 0.
pub fn f_rpcnotify(argvars: &[typval_T], rettv: &mut typval_T)
    ensures final(rettv)@ == num_tv(0),
{
    *rettv = number_tv(0);
}

/// "rpcrequest()": No RPC channel: 0.
pub fn f_rpcrequest(argvars: &[typval_T], rettv: &mut typval_T)
    ensures final(rettv)@ == num_tv(0),
{
    *rettv = number_tv(0);
}

/// "rpcstart()": No RPC: 0.
pub fn f_rpcstart(argvars: &[typval_T], rettv: &mut typval_T)
    ensures final(rettv)@ == num_tv(0),
{
    *rettv = number_tv(0);
}

/// "rpcstop()": No RPC: 0.
pub fn f_rpcstop(argvars: &[typval_T], rettv: &mut typval_T)
    ensures final(rettv)@ == num_tv(0),
{
    *rettv = number_tv(0);
}

/// "stdioopen()": No event loop: 0 (no channel).
pub fn f_stdioopen(argvars: &[typval_T], rettv: &mut typval_T)
    ensures final(rettv)@ == num_tv(0),
{
    *rettv = number_tv(0);
}

/// "prompt_appendbuf()": No prompt buffer: no-op (0).
pub fn f_prompt_appendbuf(argvars: &[typval_T], rettv: &mut typval_T)
    ensures final(rettv)@ == num_tv(0),
{
    *rettv = number_tv(0);
}

/// "termopen()": No terminal/event loop: -1.
pub fn f_termopen(argvars: &[typval_T], rettv: &mut typval_T)
    ensures final(rettv)@ == num_tv(-1),
{
    *rettv = number_tv(-1);
}

/// Find a window that shows the current buffer; there are none, so nothing happens.
pub fn find_win_for_curbuf() {
}

/// The common part of `bufwinnr()` and `bufwinid()`: no window shows a buffer, so -1.
pub fn buf_win_common(argvars: &[typval_T], rettv: &mut typval_T, get_nr: bool)
    ensures final(rettv)@ == with_number(old(rettv)@, -1),
{
    rettv.vval = typval_vval_union::v_number(-1);
}

} // verus!
