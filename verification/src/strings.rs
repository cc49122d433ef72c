use vstd::prelude::*;

verus! {

/// The decimal digit `d` as a character.
pub open spec fn digit_char(d: int) -> char {
    if d == 0 {
        '0'
    } else if d == 1 {
        '1'
    } else if d == 2 {
        '2'
    } else if d == 3 {
        '3'
    } else if d == 4 {
        '4'
    } else if d == 5 {
        '5'
    } else if d == 6 {
        '6'
    } else if d == 7 {
        '7'
    } else if d == 8 {
        '8'
    } else {
        '9'
    }
}

/// The decimal notation of `n`, without leading zeros.
pub open spec fn decimal(n: nat) -> Seq<char>
    decreases n,
{
    if n < 10 {
        seq![digit_char(n as int)]
    } else {
        decimal(n / 10).push(digit_char((n % 10) as int))
    }
}

fn digit_str(d: usize) -> (s: &'static str)
    requires
        d < 10,
    ensures
        s@ == seq![digit_char(d as int)],
{
    proof {
        reveal_strlit("0");
        reveal_strlit("1");
        reveal_strlit("2");
        reveal_strlit("3");
        reveal_strlit("4");
        reveal_strlit("5");
        reveal_strlit("6");
        reveal_strlit("7");
        reveal_strlit("8");
        reveal_strlit("9");
    }
    if d == 0 {
        "0"
    } else if d == 1 {
        "1"
    } else if d == 2 {
        "2"
    } else if d == 3 {
        "3"
    } else if d == 4 {
        "4"
    } else if d == 5 {
        "5"
    } else if d == 6 {
        "6"
    } else if d == 7 {
        "7"
    } else if d == 8 {
        "8"
    } else {
        "9"
    }
}

/// The decimal notation of `n`, as `usize`'s `Display` writes it.
pub fn decimal_string(n: usize) -> (s: String)
    ensures
        s@ == decimal(n as nat),
    decreases n,
{
    if n < 10 {
        String::from_str(digit_str(n))
    } else {
        let mut s = decimal_string(n / 10);
        s.append(digit_str(n % 10));
        s
    }
}

/// The texts the game shows.
pub struct Strings;

impl Strings {
    pub fn your_turn() -> (s: &'static str)
        ensures
            s@ == "Your turn"@,
    {
        "Your turn"
    }

    /// "<name>'s turn".
    pub fn opponents_turn(name: &str) -> (s: String)
        ensures
            s@ == name@ + "'s turn"@,
    {
        let s = String::from_str(name);
        s.concat("'s turn")
    }

    pub fn mines_found() -> (s: &'static str)
        ensures
            s@ == "mines"@,
    {
        "mines"
    }

    pub fn to_win() -> (s: &'static str)
        ensures
            s@ == "To win"@,
    {
        "To win"
    }

    pub fn more() -> (s: &'static str)
        ensures
            s@ == "more"@,
    {
        "more"
    }

    /// "<count> more to win".
    pub fn more_to_win_label(count: usize) -> (s: String)
        ensures
            s@ == decimal(count as nat) + " more to win"@,
    {
        let s = decimal_string(count);
        s.concat(" more to win")
    }

    pub fn progress() -> (s: &'static str)
        ensures
            s@ == "Progress"@,
    {
        "Progress"
    }

    pub fn found() -> (s: &'static str)
        ensures
            s@ == "Found"@,
    {
        "Found"
    }

    pub fn winner() -> (s: &'static str)
        ensures
            s@ == "WINNER!"@,
    {
        "WINNER!"
    }

    pub fn app_title() -> (s: &'static str)
        ensures
            s@ == "MinesBooMer!"@,
    {
        "MinesBooMer!"
    }

    pub fn find_game_subtitle() -> (s: &'static str)
        ensures
            s@ == "Find a game to join or create your own"@,
    {
        "Find a game to join or create your own"
    }

    pub fn new_game_button() -> (s: &'static str)
        ensures
            s@ == "New game"@,
    {
        "New game"
    }

    pub fn waiting_for_opponent() -> (s: &'static str)
        ensures
            s@ == "Waiting for opponent"@,
    {
        "Waiting for opponent"
    }

    pub fn player_local_label() -> (s: &'static str)
        ensures
            s@ == "You"@,
    {
        "You"
    }

    pub fn player_remote_label() -> (s: &'static str)
        ensures
            s@ == "Remote"@,
    {
        "Remote"
    }

    pub fn mines_label() -> (s: &'static str)
        ensures
            s@ == "mines"@,
    {
        "mines"
    }

    pub fn difficulty_easy() -> (s: &'static str)
        ensures
            s@ == "Easy"@,
    {
        "Easy"
    }

    pub fn difficulty_medium() -> (s: &'static str)
        ensures
            s@ == "Medium"@,
    {
        "Medium"
    }

    pub fn difficulty_hard() -> (s: &'static str)
        ensures
            s@ == "Hard"@,
    {
        "Hard"
    }

    pub fn join_button() -> (s: &'static str)
        ensures
            s@ == "Join"@,
    {
        "Join"
    }

    pub fn cancel_button() -> (s: &'static str)
        ensures
            s@ == "Cancel"@,
    {
        "Cancel"
    }

    pub fn no_games_available() -> (s: &'static str)
        ensures
            s@ == "No games available"@,
    {
        "No games available"
    }

    pub fn new_game_title() -> (s: &'static str)
        ensures
            s@ == "Create a new game"@,
    {
        "Create a new game"
    }

    pub fn your_name() -> (s: &'static str)
        ensures
            s@ == "Enter your name"@,
    {
        "Enter your name"
    }

    pub fn difficulty_label() -> (s: &'static str)
        ensures
            s@ == "Choose difficulty level"@,
    {
        "Choose difficulty level"
    }

    pub fn create_game_button() -> (s: &'static str)
        ensures
            s@ == "Create game"@,
    {
        "Create game"
    }

    pub fn board_label() -> (s: &'static str)
        ensures
            s@ == "Board"@,
    {
        "Board"
    }

    pub fn first_to_label() -> (s: &'static str)
        ensures
            s@ == "Mines to win"@,
    {
        "Mines to win"
    }

    pub fn join_game_title() -> (s: &'static str)
        ensures
            s@ == "Join game"@,
    {
        "Join game"
    }

    pub fn join_as_label() -> (s: &'static str)
        ensures
            s@ == "Join as..."@,
    {
        "Join as..."
    }

}

} // verus!
