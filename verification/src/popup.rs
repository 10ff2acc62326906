//! What a device card in the applet's popup shows: whether it is expanded
//! and online, the battery level under the name, and the quick actions of
//! an expanded, online device, in the order they appear.

use crate::device::Device;
use crate::text::{chars_lt, chars_of, lemma_seq_lt_total, lemma_seq_lt_transitive, seq_lt};
use vstd::prelude::*;

verus! {

broadcast use vstd::string::group_string_axioms;

/// A quick action on a device card.
pub enum CardAction {
    Ping,
    FindPhone,
    ShareClipboard,
    Sms,
    SendFiles,
    /// The running file transfer, in percent.
    Progress(u8),
    /// Browse the device's files; `true` when they are mounted, in which
    /// case the row also offers to unmount them.
    Browse(bool),
    /// Run a command of the phone: (key, name).
    RunCommand(String, String),
}

pub enum CardActionView {
    Ping,
    FindPhone,
    ShareClipboard,
    Sms,
    SendFiles,
    Progress(u8),
    Browse(bool),
    RunCommand(Seq<char>, Seq<char>),
}

impl View for CardAction {
    type V = CardActionView;

    open spec fn view(&self) -> CardActionView {
        match self {
            CardAction::Ping => CardActionView::Ping,
            CardAction::FindPhone => CardActionView::FindPhone,
            CardAction::ShareClipboard => CardActionView::ShareClipboard,
            CardAction::Sms => CardActionView::Sms,
            CardAction::SendFiles => CardActionView::SendFiles,
            CardAction::Progress(p) => CardActionView::Progress(*p),
            CardAction::Browse(m) => CardActionView::Browse(*m),
            CardAction::RunCommand(k, n) => CardActionView::RunCommand(k@, n@),
        }
    }
}

pub open spec fn actions_view(v: Seq<CardAction>) -> Seq<CardActionView> {
    v.map_values(|a: CardAction| a@)
}

/// What the card of a device shows.
pub struct DeviceCard {
    pub expanded: bool,
    pub online: bool,
    /// The battery level shown under the name; only for an online device.
    pub battery_level: Option<i32>,
    /// The signal strength whose icon is shown under the name; only for an
    /// online device.
    pub signal_strength: Option<i32>,
    /// The quick actions; only for an expanded, online device.
    pub actions: Vec<CardAction>,
}

/// `s` when `c` holds, else nothing.
pub open spec fn when(c: bool, s: Seq<CardActionView>) -> Seq<CardActionView> {
    if c {
        s
    } else {
        Seq::empty()
    }
}

/// The quick actions of an expanded, online device, in order: ping; find
/// the phone if it can ring; share the clipboard if it can; SMS; send
/// files and the transfer's progress (once above zero) if it shares; browse
/// its files if it offers them; then one action per command it offers.
pub open spec fn card_actions(d: Device) -> Seq<CardActionView> {
    seq![CardActionView::Ping]
        + when(d.has_findmyphone, seq![CardActionView::FindPhone])
        + when(d.has_clipboard, seq![CardActionView::ShareClipboard])
        + seq![CardActionView::Sms]
        + when(d.has_share, seq![CardActionView::SendFiles] + match d.share_progress {
            Some(p) => when(p > 0, seq![CardActionView::Progress(p)]),
            None => Seq::empty(),
        })
        + when(d.has_sftp, seq![CardActionView::Browse(d.is_mounted)])
        + d.run_commands@.map_values(|c: (String, String)| CardActionView::RunCommand(c.0@, c.1@))
}

/// A device card offers to browse files only for a device that offers
/// them, and then exactly once, with the device's own mount state.
pub proof fn law_browse_carries_mount_state(d: Device)
    ensures
        forall|x: int|
            0 <= x < card_actions(d).len() && (#[trigger] card_actions(d)[x] is Browse) ==> d.has_sftp
                && card_actions(d)[x] == CardActionView::Browse(d.is_mounted),
        d.has_sftp ==> card_actions(d).contains(CardActionView::Browse(d.is_mounted)),
{
    let a = seq![CardActionView::Ping]
        + when(d.has_findmyphone, seq![CardActionView::FindPhone])
        + when(d.has_clipboard, seq![CardActionView::ShareClipboard])
        + seq![CardActionView::Sms]
        + when(d.has_share, seq![CardActionView::SendFiles] + match d.share_progress {
            Some(p) => when(p > 0, seq![CardActionView::Progress(p)]),
            None => Seq::empty(),
        });
    let b = when(d.has_sftp, seq![CardActionView::Browse(d.is_mounted)]);
    let c = d.run_commands@.map_values(|c: (String, String)| CardActionView::RunCommand(c.0@, c.1@));
    assert(card_actions(d) =~= a + b + c);
    assert forall|x: int| 0 <= x < a.len() implies !(#[trigger] a[x] is Browse) by {}
    assert forall|x: int| 0 <= x < c.len() implies !(#[trigger] c[x] is Browse) by {}
    assert forall|x: int|
        0 <= x < card_actions(d).len() && (#[trigger] card_actions(d)[x] is Browse) implies d.has_sftp
        && card_actions(d)[x] == CardActionView::Browse(d.is_mounted) by {
        if x < a.len() {
            assert(card_actions(d)[x] == a[x]);
        } else if x < a.len() + b.len() {
            assert(card_actions(d)[x] == b[x - a.len()]);
        } else {
            assert(card_actions(d)[x] == c[x - a.len() - b.len()]);
        }
    }
    if d.has_sftp {
        assert(card_actions(d)[a.len() as int] == CardActionView::Browse(d.is_mounted));
    }
}

fn push_when(v: &mut Vec<CardAction>, c: bool, a: CardAction)
    ensures
        actions_view(final(v)@) == actions_view(old(v)@) + when(c, seq![a@]),
{
    let ghost before = v@;
    if c {
        v.push(a);
        assert(actions_view(v@) =~= actions_view(before) + seq![a@]);
    } else {
        assert(actions_view(v@) =~= actions_view(before) + Seq::<CardActionView>::empty());
    }
}

/// The card of `device`, given the id of the expanded card.
pub fn device_card(device: &Device, expanded_device: &Option<String>) -> (r: DeviceCard)
    ensures
        r.expanded == (match expanded_device {
            Some(e) => e@ == device.id@,
            None => false,
        }),
        r.online == device.is_reachable,
        r.battery_level == (if device.is_reachable {
            device.battery_level
        } else {
            None
        }),
        r.signal_strength == (if device.is_reachable {
            device.signal_strength
        } else {
            None
        }),
        actions_view(r.actions@) == when(r.expanded && r.online, card_actions(*device)),
{
    let expanded = match expanded_device {
        Some(e) => *e == device.id,
        None => false,
    };
    let online = device.is_reachable;
    let battery_level = if online {
        device.battery_level
    } else {
        None
    };
    let signal_strength = if online {
        device.signal_strength
    } else {
        None
    };
    let mut actions: Vec<CardAction> = Vec::new();
    if expanded && online {
        let d = device;
        push_when(&mut actions, true, CardAction::Ping);
        push_when(&mut actions, d.has_findmyphone, CardAction::FindPhone);
        push_when(&mut actions, d.has_clipboard, CardAction::ShareClipboard);
        push_when(&mut actions, true, CardAction::Sms);
        let ghost before_share = actions_view(actions@);
        push_when(&mut actions, d.has_share, CardAction::SendFiles);
        let progress = match d.share_progress {
            Some(p) => p,
            None => 0,
        };
        push_when(&mut actions, d.has_share && progress > 0, CardAction::Progress(progress));
        assert(actions_view(actions@) =~= before_share + when(
            d.has_share,
            seq![CardActionView::SendFiles] + match d.share_progress {
                Some(p) => when(p > 0, seq![CardActionView::Progress(p)]),
                None => Seq::empty(),
            },
        ));
        push_when(&mut actions, d.has_sftp, CardAction::Browse(d.is_mounted));
        let ghost head = actions_view(actions@);
        let ghost cmds = d.run_commands@;
        let mut i: usize = 0;
        while i < d.run_commands.len()
            invariant
                i <= cmds.len(),
                cmds == d.run_commands@,
                actions_view(actions@) == head + cmds.take(i as int).map_values(
                    |c: (String, String)| CardActionView::RunCommand(c.0@, c.1@),
                ),
            decreases d.run_commands.len() - i,
        {
            let ghost prev = actions_view(actions@);
            let k = d.run_commands[i].0.clone();
            let n = d.run_commands[i].1.clone();
            actions.push(CardAction::RunCommand(k, n));
            assert(cmds.take(i + 1) =~= cmds.take(i as int).push(cmds[i as int]));
            assert(actions_view(actions@) =~= prev + seq![CardActionView::RunCommand(k@, n@)]);
            assert(actions_view(actions@) =~= head + cmds.take(i + 1).map_values(
                |c: (String, String)| CardActionView::RunCommand(c.0@, c.1@),
            ));
            i += 1;
        }
        assert(cmds.take(i as int) =~= cmds);
        assert(actions_view(actions@) =~= card_actions(*device));
    } else {
        assert(actions_view(actions@) =~= Seq::<CardActionView>::empty());
    }
    DeviceCard { expanded, online, battery_level, signal_strength, actions }
}

// ---------------------------------------------------------------------------
// Media players
// ---------------------------------------------------------------------------

/// What a media player of the phone is playing, and which controls it has.
pub struct NowPlaying {
    /// The player's name, such as the app it belongs to.
    pub identity: String,
    pub title: Option<String>,
    pub artist: Option<String>,
    /// The downloaded album art, if any.
    pub art_path: Option<String>,
    pub is_playing: bool,
    pub can_play: bool,
    pub can_pause: bool,
    pub can_go_next: bool,
    pub can_go_previous: bool,
}

/// A player that offers any transport control gets a card; one that offers
/// none would be a box of dead buttons.
pub open spec fn controllable(p: NowPlaying) -> bool {
    p.can_play || p.can_pause || p.can_go_next || p.can_go_previous
}

/// What the card of a player shows.
pub struct MediaCard {
    /// The album art to show; the generic audio icon when `None`.
    pub art_path: Option<String>,
    /// Whether the previous, play/pause and next buttons are live.
    pub previous: bool,
    pub play_pause: bool,
    pub next: bool,
    /// The play/pause button shows the pause icon (else the play icon).
    pub pause_icon: bool,
    /// The small caption above the title: the player's identity, shown only
    /// when there is a title.
    pub caption: Option<String>,
    /// The bold line: the title, else the player's identity.
    pub heading: String,
    /// The artist line, shown only for a non-empty artist.
    pub artist: Option<String>,
}

pub open spec fn opt_text(o: Option<String>) -> Option<Seq<char>> {
    match o {
        Some(s) => Some(s@),
        None => None,
    }
}

fn clone_opt(o: &Option<String>) -> (r: Option<String>)
    ensures
        opt_text(r) == opt_text(*o),
{
    match o {
        Some(s) => Some(s.clone()),
        None => None,
    }
}

/// The card of a player.
pub fn media_card(p: &NowPlaying) -> (r: MediaCard)
    ensures
        opt_text(r.art_path) == opt_text(p.art_path),
        r.previous == p.can_go_previous,
        r.play_pause == (p.can_play || p.can_pause),
        r.next == p.can_go_next,
        r.pause_icon == p.is_playing,
        opt_text(r.caption) == (if p.title is Some {
            Some(p.identity@)
        } else {
            None
        }),
        r.heading@ == (match p.title {
            Some(t) => t@,
            None => p.identity@,
        }),
        opt_text(r.artist) == (match p.artist {
            Some(a) => if a@.len() > 0 {
                Some(a@)
            } else {
                None
            },
            None => None,
        }),
{
    let (caption, heading) = match &p.title {
        Some(t) => (Some(p.identity.clone()), t.clone()),
        None => (None, p.identity.clone()),
    };
    let artist = match &p.artist {
        Some(a) => if chars_of(a.as_str()).len() > 0 {
            Some(a.clone())
        } else {
            None
        },
        None => None,
    };
    MediaCard {
        art_path: clone_opt(&p.art_path),
        previous: p.can_go_previous,
        play_pause: p.can_play || p.can_pause,
        next: p.can_go_next,
        pause_icon: p.is_playing,
        caption,
        heading,
        artist,
    }
}

/// The identity of the player at index `i`.
pub open spec fn identity_at(players: Seq<(String, NowPlaying)>, i: int) -> Seq<char> {
    players[i].1.identity@
}

/// The controllable players, by index into `players` (bus name, player),
/// ordered by identity: each controllable player once, and no other.
pub fn media_players_by_identity(players: &Vec<(String, NowPlaying)>) -> (r: Vec<usize>)
    ensures
        forall|k: int| 0 <= k < r@.len() ==> (#[trigger] r@[k]) < players@.len() && controllable(
            players@[r@[k] as int].1,
        ),
        forall|i: int|
            0 <= i < players@.len() && controllable(#[trigger] players@[i].1) ==> r@.contains(
                i as usize,
            ),
        forall|a: int, b: int| 0 <= a < b < r@.len() ==> r@[a] != r@[b],
        forall|a: int, b: int|
            0 <= a < b < r@.len() ==> !seq_lt(
                identity_at(players@, r@[b] as int),
                identity_at(players@, r@[a] as int),
            ),
{
    let ps = players;
    let mut r: Vec<usize> = Vec::new();
    let mut i: usize = 0;
    while i < ps.len()
        invariant
            i <= ps@.len(),
            forall|k: int| 0 <= k < r@.len() ==> (#[trigger] r@[k]) < i && controllable(
                ps@[r@[k] as int].1,
            ),
            forall|j: int| 0 <= j < i && controllable(#[trigger] ps@[j].1) ==> r@.contains(
                j as usize,
            ),
            forall|a: int, b: int| 0 <= a < b < r@.len() ==> r@[a] != r@[b],
            forall|a: int, b: int|
                0 <= a < b < r@.len() ==> !seq_lt(
                    identity_at(ps@, r@[b] as int),
                    identity_at(ps@, r@[a] as int),
                ),
        decreases ps.len() - i,
    {
        let p = &ps[i].1;
        if p.can_play || p.can_pause || p.can_go_next || p.can_go_previous {
            let name = chars_of(p.identity.as_str());
            let mut q: usize = 0;
            while q < r.len() && !chars_lt(&name, &chars_of(ps[r[q]].1.identity.as_str()))
                invariant
                    q <= r@.len(),
                    name@ == identity_at(ps@, i as int),
                    forall|k: int| 0 <= k < r@.len() ==> (#[trigger] r@[k]) < i,
                    i < ps@.len(),
                    forall|k: int| 0 <= k < q ==> !seq_lt(
                        identity_at(ps@, i as int),
                        identity_at(ps@, r@[k] as int),
                    ),
                decreases r.len() - q,
            {
                q += 1;
            }
            let ghost old_r = r@;
            r.insert(q, i);
            proof {
                let nr = r@;
                let n = identity_at(ps@, i as int);
                assert(nr.len() == old_r.len() + 1);
                assert forall|k: int| 0 <= k < nr.len() implies (#[trigger] nr[k]) < i + 1
                    && controllable(ps@[nr[k] as int].1) by {
                    if k < q {
                        assert(nr[k] == old_r[k]);
                    } else if k > q {
                        assert(nr[k] == old_r[k - 1]);
                    }
                }
                assert forall|j: int| 0 <= j < i + 1 && controllable(#[trigger] ps@[j].1)
                    implies nr.contains(j as usize) by {
                    if j == i {
                        assert(nr[q as int] == i);
                    } else {
                        assert(old_r.contains(j as usize));
                        let k = choose|k: int| 0 <= k < old_r.len() && old_r[k] == j as usize;
                        if k < q {
                            assert(nr[k] == old_r[k]);
                        } else {
                            assert(nr[k + 1] == old_r[k]);
                        }
                    }
                }
                assert forall|a: int, b: int| 0 <= a < b < nr.len() implies nr[a] != nr[b] by {
                    if a < q && b < q {
                        assert(nr[a] == old_r[a] && nr[b] == old_r[b]);
                    } else if a < q && b == q {
                        assert(nr[a] == old_r[a]);
                    } else if a < q {
                        assert(nr[a] == old_r[a] && nr[b] == old_r[b - 1]);
                    } else if a == q {
                        assert(nr[b] == old_r[b - 1]);
                    } else {
                        assert(nr[a] == old_r[a - 1] && nr[b] == old_r[b - 1]);
                    }
                }
                assert forall|a: int, b: int| 0 <= a < b < nr.len() implies !seq_lt(
                    identity_at(ps@, nr[b] as int),
                    identity_at(ps@, nr[a] as int),
                ) by {
                    if b < q {
                        assert(nr[a] == old_r[a] && nr[b] == old_r[b]);
                    } else if b == q {
                        assert(nr[a] == old_r[a]);
                        lemma_seq_lt_total(n, identity_at(ps@, old_r[a] as int));
                    } else {
                        assert(nr[b] == old_r[b - 1]);
                        if a == q {
                            let x = identity_at(ps@, old_r[q as int] as int);
                            let z = identity_at(ps@, old_r[b - 1] as int);
                            assert(seq_lt(n, x));
                            lemma_seq_lt_total(x, z);
                            lemma_seq_lt_total(n, z);
                            if x != z {
                                lemma_seq_lt_transitive(n, x, z);
                            }
                        } else if a < q {
                            assert(nr[a] == old_r[a]);
                        } else {
                            assert(nr[a] == old_r[a - 1]);
                        }
                    }
                }
            }
        } else {
            proof {
                assert forall|j: int| 0 <= j < i + 1 && controllable(#[trigger] ps@[j].1)
                    implies r@.contains(j as usize) by {}
            }
        }
        i += 1;
    }
    r
}

} // verus!
