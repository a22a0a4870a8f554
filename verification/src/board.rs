//! The catalogue of CYD board profiles.

use vstd::prelude::*;

verus! {

/// A CYD board profile.
#[derive(Debug, Clone)]
pub struct BoardProfile {
    /// Board model (e.g. "2432S028R").
    pub model: String,
    /// Chip type (e.g. "ESP32", "ESP32-S3").
    pub chip: String,
    /// Number of CPU cores.
    pub cores: u32,
    /// Display width in pixels.
    pub display_width: u32,
    /// Display height in pixels.
    pub display_height: u32,
    /// Display size description (e.g. "2.8\"").
    pub display_size: String,
    /// Touch controller type (e.g. "XPT2046 (resistive)").
    pub touch_type: String,
    /// Number of SD card slots.
    pub sd_slots: u32,
    /// USB connector type (e.g. "Micro-USB (UART)").
    pub usb_type: String,
}

/// The content of a board profile.
pub struct BoardData {
    pub model: Seq<char>,
    pub chip: Seq<char>,
    pub cores: u32,
    pub display_width: u32,
    pub display_height: u32,
    pub display_size: Seq<char>,
    pub touch_type: Seq<char>,
    pub sd_slots: u32,
    pub usb_type: Seq<char>,
}

impl View for BoardProfile {
    type V = BoardData;

    open spec fn view(&self) -> BoardData {
        BoardData {
            model: self.model@,
            chip: self.chip@,
            cores: self.cores,
            display_width: self.display_width,
            display_height: self.display_height,
            display_size: self.display_size@,
            touch_type: self.touch_type@,
            sd_slots: self.sd_slots,
            usb_type: self.usb_type@,
        }
    }
}

impl BoardProfile {
    /// A copy of this profile.
    pub fn duplicate(&self) -> (b: BoardProfile)
        ensures
            b@ == self@,
    {
        BoardProfile {
            model: self.model.clone(),
            chip: self.chip.clone(),
            cores: self.cores,
            display_width: self.display_width,
            display_height: self.display_height,
            display_size: self.display_size.clone(),
            touch_type: self.touch_type.clone(),
            sd_slots: self.sd_slots,
            usb_type: self.usb_type.clone(),
        }
    }
}

/// The content of a board profile with the given fields.
pub open spec fn board_data(
    model: &str,
    chip: &str,
    cores: u32,
    w: u32,
    h: u32,
    size: &str,
    touch: &str,
    sd: u32,
    usb: &str,
) -> BoardData {
    BoardData {
        model: model@,
        chip: chip@,
        cores: cores,
        display_width: w,
        display_height: h,
        display_size: size@,
        touch_type: touch@,
        sd_slots: sd,
        usb_type: usb@,
    }
}

/// The supported boards, in catalogue order.
pub open spec fn board_table() -> Seq<BoardData> {
    seq![
        board_data("2432S028R", "ESP32", 2, 320, 240, "2.8\"", "XPT2046 (resistive)", 1, "Micro-USB (UART)"),
        board_data("2432S024C", "ESP32", 2, 320, 240, "2.4\"", "XPT2046 (resistive)", 1, "USB-C"),
        board_data("3248S035C", "ESP32", 2, 480, 320, "3.5\"", "GT911 (capacitive)", 1, "USB-C"),
        board_data("4827S043C", "ESP32-S3", 2, 800, 480, "4.3\"", "GT911 (capacitive)", 1, "USB-C"),
    ]
}

/// The first board of `s` whose model is `m`.
pub open spec fn first_board(s: Seq<BoardData>, m: Seq<char>) -> Option<BoardData>
    decreases s.len(),
{
    if s.len() == 0 {
        None
    } else if s[0].model == m {
        Some(s[0])
    } else {
        first_board(s.drop_first(), m)
    }
}

/// The views of a sequence of board profiles.
pub open spec fn board_views(v: Seq<BoardProfile>) -> Seq<BoardData> {
    v.map_values(|b: BoardProfile| b@)
}

fn make_board(
    model: &str,
    chip: &str,
    cores: u32,
    w: u32,
    h: u32,
    size: &str,
    touch: &str,
    sd: u32,
    usb: &str,
) -> (b: BoardProfile)
    ensures
        b@ == board_data(model, chip, cores, w, h, size, touch, sd, usb),
{
    BoardProfile {
        model: String::from_str(model),
        chip: String::from_str(chip),
        cores: cores,
        display_width: w,
        display_height: h,
        display_size: String::from_str(size),
        touch_type: String::from_str(touch),
        sd_slots: sd,
        usb_type: String::from_str(usb),
    }
}

/// All board profiles, in catalogue order.
pub fn load_boards() -> (boards: Vec<BoardProfile>)
    ensures
        board_views(boards@) == board_table(),
{
    let mut boards: Vec<BoardProfile> = Vec::new();
    boards.push(make_board("2432S028R", "ESP32", 2, 320, 240, "2.8\"", "XPT2046 (resistive)", 1, "Micro-USB (UART)"));
    boards.push(make_board("2432S024C", "ESP32", 2, 320, 240, "2.4\"", "XPT2046 (resistive)", 1, "USB-C"));
    boards.push(make_board("3248S035C", "ESP32", 2, 480, 320, "3.5\"", "GT911 (capacitive)", 1, "USB-C"));
    boards.push(make_board("4827S043C", "ESP32-S3", 2, 800, 480, "4.3\"", "GT911 (capacitive)", 1, "USB-C"));
    assert(board_views(boards@) =~= board_table());
    boards
}

proof fn lemma_first_board_suffix(s: Seq<BoardData>, i: int, m: Seq<char>)
    requires
        0 <= i <= s.len(),
        forall|j: int| 0 <= j < i ==> s[j].model != m,
    ensures
        first_board(s, m) == first_board(s.subrange(i, s.len() as int), m),
    decreases i,
{
    if i == 0 {
        assert(s.subrange(0, s.len() as int) =~= s);
    } else {
        assert(s[0].model != m);
        assert(s.drop_first() =~= s.subrange(1, s.len() as int));
        lemma_first_board_suffix(s.drop_first(), i - 1, m);
        assert(s.drop_first().subrange(i - 1, s.len() - 1) =~= s.subrange(i, s.len() as int));
    }
}

/// The profile of the board whose model is `model`, if it is in the
/// catalogue.
pub fn get_board(model: &str) -> (r: Option<BoardProfile>)
    ensures
        match r {
            Some(b) => first_board(board_table(), model@) == Some(b@),
            None => first_board(board_table(), model@).is_none(),
        },
{
    let boards = load_boards();
    let m = model.to_owned();
    let mut i: usize = 0;
    while i < boards.len()
        invariant
            i <= boards@.len(),
            board_views(boards@) == board_table(),
            m@ == model@,
            forall|j: int| 0 <= j < i ==> board_table()[j].model != model@,
        decreases boards.len() - i,
    {
        assert(board_views(boards@)[i as int] == boards@[i as int]@);
        if boards[i].model == m {
            proof {
                lemma_first_board_suffix(board_table(), i as int, model@);
            }
            let b = boards[i].duplicate();
            proof {
                let t = board_table().subrange(i as int, board_table().len() as int);
                assert(t[0] == board_table()[i as int]);
            }
            return Some(b);
        }
        i = i + 1;
    }
    proof {
        lemma_first_board_suffix(board_table(), i as int, model@);
    }
    None
}

/// The models of all boards, in catalogue order.
pub fn get_board_models() -> (models: Vec<String>)
    ensures
        crate::text::string_views(models@) == board_table().map_values(|b: BoardData| b.model),
{
    let boards = load_boards();
    let mut models: Vec<String> = Vec::new();
    let mut i: usize = 0;
    while i < boards.len()
        invariant
            i <= boards@.len(),
            board_views(boards@) == board_table(),
            crate::text::string_views(models@) == board_table().map_values(|b: BoardData| b.model).subrange(
                0,
                i as int,
            ),
        decreases boards.len() - i,
    {
        assert(board_views(boards@)[i as int] == boards@[i as int]@);
        let name = boards[i].model.clone();
        let ghost before = models@;
        models.push(name);
        assert(crate::text::string_views(models@) =~= crate::text::string_views(before).push(name@));
        assert(crate::text::string_views(models@) =~= board_table().map_values(|b: BoardData| b.model).subrange(
            0,
            i + 1,
        ));
        i = i + 1;
    }
    assert(board_table().map_values(|b: BoardData| b.model).subrange(0, i as int) =~= board_table().map_values(
        |b: BoardData| b.model,
    ));
    models
}

/// A board found by model has that model.
pub proof fn law_found_board_has_model(s: Seq<BoardData>, m: Seq<char>)
    ensures
        first_board(s, m) matches Some(b) ==> b.model == m,
    decreases s.len(),
{
    if s.len() > 0 && s[0].model != m {
        law_found_board_has_model(s.drop_first(), m);
    }
}

/// Every model in the catalogue is found, and a model that is not in it is
/// not.
pub proof fn law_listed_models_found(s: Seq<BoardData>, m: Seq<char>)
    ensures
        first_board(s, m).is_some() == (exists|i: int| 0 <= i < s.len() && #[trigger] s[i].model == m),
    decreases s.len(),
{
    if s.len() > 0 {
        law_listed_models_found(s.drop_first(), m);
        if s[0].model != m {
            assert forall|i: int| 0 <= i < s.len() && #[trigger] s[i].model == m implies exists|j: int|
                0 <= j < s.drop_first().len() && #[trigger] s.drop_first()[j].model == m by {
                assert(s.drop_first()[i - 1] == s[i]);
            }
            if exists|j: int| 0 <= j < s.drop_first().len() && #[trigger] s.drop_first()[j].model == m {
                let j = choose|j: int| 0 <= j < s.drop_first().len() && #[trigger] s.drop_first()[j].model == m;
                assert(s[j + 1].model == m);
            }
        } else {
            assert(s[0].model == m);
        }
    }
}

/// The default board, "2432S028R", is an ESP32 with two cores and a
/// 320x240 display.
pub proof fn law_default_board()
    ensures
        first_board(board_table(), "2432S028R"@) == Some(board_table()[0]),
        board_table()[0].chip == "ESP32"@,
        board_table()[0].cores == 2,
        board_table()[0].display_width == 320,
        board_table()[0].display_height == 240,
{
}

} // verus!
