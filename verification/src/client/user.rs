use vstd::prelude::*;

use crate::model::{ClientSendData, CommandKeys, Direction, GameStatus, HostSideData, Key};

verus! {

/// The command a key stands for on a client; `None` for keys it ignores.
pub open spec fn client_key_command(key: Key) -> Option<CommandKeys> {
    match key {
        Key::Up | Key::Char('w') | Key::Char('W') => Some(CommandKeys::Directions(Direction::Up)),
        Key::Down | Key::Char('s') | Key::Char('S') => Some(
            CommandKeys::Directions(Direction::Down),
        ),
        Key::Right | Key::Char('d') | Key::Char('D') => Some(
            CommandKeys::Directions(Direction::Right),
        ),
        Key::Left | Key::Char('a') | Key::Char('A') => Some(
            CommandKeys::Directions(Direction::Left),
        ),
        Key::Char(' ') => Some(CommandKeys::ChangeSpeed),
        Key::Esc => Some(CommandKeys::End),
        _ => None,
    }
}

/// Turns a pressed key into a command: arrows or `w`, `s`, `d`, `a` (either case) steer,
/// space changes the speed, escape ends the game; other keys give nothing.
pub fn key_to_command(key: Key) -> (r: Option<CommandKeys>)
    ensures
        r == client_key_command(key),
{
    match key {
        Key::Up | Key::Char('w') | Key::Char('W') => Some(CommandKeys::Directions(Direction::Up)),
        Key::Down | Key::Char('s') | Key::Char('S') => Some(
            CommandKeys::Directions(Direction::Down),
        ),
        Key::Right | Key::Char('d') | Key::Char('D') => Some(
            CommandKeys::Directions(Direction::Right),
        ),
        Key::Left | Key::Char('a') | Key::Char('A') => Some(
            CommandKeys::Directions(Direction::Left),
        ),
        Key::Char(' ') => Some(CommandKeys::ChangeSpeed),
        Key::Esc => Some(CommandKeys::End),
        _ => None,
    }
}

/// Passes a command on unless it repeats the previous direction; what is passed on
/// becomes the previous command.
pub fn filter_repeated(previous_command: &mut CommandKeys, new_command: CommandKeys) -> (r: Option<
    CommandKeys,
>)
    ensures
        (new_command is Directions && new_command == *old(previous_command)) ==> {
            &&& r is None
            &&& *final(previous_command) == *old(previous_command)
        },
        !(new_command is Directions && new_command == *old(previous_command)) ==> {
            &&& r == Some(new_command)
            &&& *final(previous_command) == new_command
        },
{
    if let CommandKeys::Directions(_) = new_command {
        if new_command == *previous_command {
            return None;
        }
    }
    *previous_command = new_command;
    Some(new_command)
}

/// The pause between turns at high speed, in milliseconds.
pub const FASTER_DURATION: u64 = 50;

/// The pause between turns at normal speed, in milliseconds.
pub const SLOWER_DURATION: u64 = 200;

/// A client's pace: the pause between turns and whether the next turn sheds a piece.
pub struct ClientPace {
    pub duration: u64,
    pub loose_weight: bool,
}

/// The pace after a command: a speed change flips between the two speeds, shedding only
/// at high speed.
pub open spec fn paced(duration: u64, loose_weight: bool, command: CommandKeys) -> (u64, bool) {
    if command == CommandKeys::ChangeSpeed {
        if duration == FASTER_DURATION {
            (SLOWER_DURATION, false)
        } else {
            (FASTER_DURATION, true)
        }
    } else {
        (duration, loose_weight)
    }
}

/// One turn of a client before it talks to the host: a speed change is taken (and not
/// sent); at high speed the snake sheds every other turn, and the client slows down once
/// the snake is shorter than three. Hands back what to send.
pub fn client_tick(
    pace: &mut ClientPace,
    command: CommandKeys,
    last_len: usize,
    terminal_size: (u16, u16),
) -> (r: ClientSendData)
    ensures
        ({
            let (d, lw) = paced(old(pace).duration, old(pace).loose_weight, command);
            &&& final(pace).duration == if d == FASTER_DURATION && last_len < 3 {
                SLOWER_DURATION
            } else {
                d
            }
            &&& final(pace).loose_weight == if d == FASTER_DURATION {
                !lw
            } else {
                lw
            }
            &&& r.loose_weight == final(pace).loose_weight
        }),
        r.terminal_size == terminal_size,
        r.command == if command == CommandKeys::ChangeSpeed {
            CommandKeys::Idle
        } else {
            command
        },
{
    let mut command = command;
    if let CommandKeys::ChangeSpeed = command {
        command = CommandKeys::Idle;
        if pace.duration == FASTER_DURATION {
            pace.duration = SLOWER_DURATION;
            pace.loose_weight = false;
        } else {
            pace.duration = FASTER_DURATION;
            pace.loose_weight = true;
        }
    }
    if pace.duration == FASTER_DURATION {
        if last_len < 3 {
            pace.duration = SLOWER_DURATION;
        }
        pace.loose_weight = !pace.loose_weight;
    }
    ClientSendData { terminal_size, command, loose_weight: pace.loose_weight }
}

/// What the host's answer means for the client: a finished game ends the session with
/// the host's message.
pub fn session_result(host_side_data: &HostSideData) -> (r: Result<(), String>)
    ensures
        host_side_data.status is Alive ==> r is Ok,
        host_side_data.status matches GameStatus::Dead(m) ==> r matches Err(e) && e@ == m@,
{
    match &host_side_data.status {
        GameStatus::Dead(msg) => Err(msg.clone()),
        GameStatus::Alive => Ok(()),
    }
}

/// The longest of the lengths.
pub open spec fn longest(lens: Seq<usize>) -> int
    decreases lens.len(),
{
    if lens.len() == 0 {
        0
    } else {
        let rest = longest(lens.drop_last());
        if lens.last() > rest {
            lens.last() as int
        } else {
            rest
        }
    }
}

/// Where a framed closing message goes on a client's terminal.
pub struct BannerLayout {
    /// The width of the two star rows.
    pub frame_width: usize,
    /// Where the top star row starts.
    pub top: (u16, u16),
    /// Where each line of the message starts.
    pub lines: Vec<(u16, u16)>,
    /// Where the bottom star row starts.
    pub bottom: (u16, u16),
}

/// The frame is four wider than the longest line and two higher than the message.
pub open spec fn frame_width(lens: Seq<usize>) -> int {
    longest(lens) + 4
}

pub open spec fn frame_height(lens: Seq<usize>) -> int {
    lens.len() as int + 2
}

/// The `u16` arithmetic of the layout stays in range (lengths are cut to `u16` first).
pub open spec fn banner_ok(lens: Seq<usize>, size: (u16, u16)) -> bool {
    let w = frame_width(lens) % 65536;
    let h = frame_height(lens) % 65536;
    &&& lens.len() > 0
    &&& frame_width(lens) <= usize::MAX
    &&& frame_height(lens) <= usize::MAX
    &&& w <= size.0
    &&& h <= size.1
    &&& forall|i: int|
        0 <= i < lens.len() ==> {
            &&& #[trigger] lens[i] % 65536 <= size.0
            &&& (size.1 - h) / 2 + 1 + i % 65536 <= u16::MAX
        }
    &&& size.1 + h <= u16::MAX
    &&& (size.1 + h) / 2 >= 1
}

/// Whether a framed closing message fits the terminal: `banner_ok`, computed.
pub fn banner_fits(line_lengths: &Vec<usize>, size: (u16, u16)) -> (r: bool)
    ensures
        r == banner_ok(line_lengths@, size),
{
    let ghost lens = line_lengths@;
    if line_lengths.len() == 0 {
        return false;
    }
    let mut longest_len: usize = 0;
    let mut i: usize = 0;
    while i < line_lengths.len()
        invariant
            i <= lens.len(),
            lens == line_lengths@,
            longest_len == longest(lens.take(i as int)),
        decreases lens.len() - i,
    {
        assert(lens.take(i + 1).drop_last() == lens.take(i as int));
        if line_lengths[i] > longest_len {
            longest_len = line_lengths[i];
        }
        i = i + 1;
    }
    assert(lens.take(lens.len() as int) == lens);
    if longest_len > usize::MAX - 4 || line_lengths.len() > usize::MAX - 2 {
        return false;
    }
    let w = ((longest_len + 4) % 65536) as u16;
    let h = ((line_lengths.len() + 2) % 65536) as u16;
    if w > size.0 || h > size.1 || size.1 as u32 + h as u32 > 65535 || (size.1 as u32 + h as u32)
        / 2 < 1 {
        return false;
    }
    let mut k: usize = 0;
    while k < line_lengths.len()
        invariant
            k <= lens.len(),
            lens == line_lengths@,
            h as int == frame_height(lens) % 65536,
            h <= size.1,
            forall|j: int|
                0 <= j < k ==> {
                    &&& #[trigger] lens[j] % 65536 <= size.0
                    &&& (size.1 - h) / 2 + 1 + j % 65536 <= u16::MAX
                },
        decreases lens.len() - k,
    {
        if line_lengths[k] % 65536 > size.0 as usize || ((size.1 - h) / 2) as usize + 1 + k % 65536
            > 65535 {
            assert(!({
                &&& lens[k as int] % 65536 <= size.0
                &&& (size.1 - h) / 2 + 1 + k % 65536 <= u16::MAX
            }));
            return false;
        }
        k = k + 1;
    }
    true
}

/// Lays out a framed closing message: star rows above and below, every line centred
/// across the terminal, the whole block centred from top to bottom.
pub fn banner_layout(line_lengths: &Vec<usize>, size: (u16, u16)) -> (r: BannerLayout)
    requires
        banner_ok(line_lengths@, size),
    ensures
        ({
            let lens = line_lengths@;
            let w = frame_width(lens) % 65536;
            let h = frame_height(lens) % 65536;
            &&& r.frame_width == frame_width(lens)
            &&& r.top == (((size.0 - w) / 2) as u16, ((size.1 - h) / 2) as u16)
            &&& r.bottom == (((size.0 - w) / 2) as u16, ((size.1 + h) / 2 - 1) as u16)
            &&& r.lines@.len() == lens.len()
            &&& forall|i: int|
                0 <= i < lens.len() ==> #[trigger] r.lines@[i] == (
                    ((size.0 - lens[i] % 65536) / 2) as u16,
                    ((size.1 - h) / 2 + 1 + i % 65536) as u16,
                )
        }),
{
    let ghost lens = line_lengths@;
    let mut longest_len: usize = 0;
    let mut i: usize = 0;
    while i < line_lengths.len()
        invariant
            i <= lens.len(),
            lens == line_lengths@,
            longest_len == longest(lens.take(i as int)),
        decreases lens.len() - i,
    {
        assert(lens.take(i + 1).drop_last() == lens.take(i as int));
        if line_lengths[i] > longest_len {
            longest_len = line_lengths[i];
        }
        i = i + 1;
    }
    assert(lens.take(lens.len() as int) == lens);
    let max_width = longest_len + 4;
    let max_height = line_lengths.len() + 2;
    let w = (max_width % 65536) as u16;
    let h = (max_height % 65536) as u16;
    let top = ((size.0 - w) / 2, (size.1 - h) / 2);
    let mut lines: Vec<(u16, u16)> = Vec::new();
    let mut k: usize = 0;
    while k < line_lengths.len()
        invariant
            k <= lens.len(),
            lens == line_lengths@,
            banner_ok(lens, size),
            h == frame_height(lens) % 65536,
            lines@.len() == k,
            forall|j: int|
                0 <= j < k ==> #[trigger] lines@[j] == (
                    ((size.0 - lens[j] % 65536) / 2) as u16,
                    ((size.1 - h) / 2 + 1 + j % 65536) as u16,
                ),
        decreases lens.len() - k,
    {
        let len = (line_lengths[k] % 65536) as u16;
        let row = (k % 65536) as u16;
        assert(lens[k as int] % 65536 <= size.0);
        lines.push(((size.0 - len) / 2, (size.1 - h) / 2 + 1 + row));
        k = k + 1;
    }
    let bottom = ((size.0 - w) / 2, (size.1 + h) / 2 - 1);
    BannerLayout { frame_width: max_width, top, lines, bottom }
}

} // verus!
