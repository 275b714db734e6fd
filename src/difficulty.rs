use vstd::prelude::*;

verus! {

/// Microseconds in one second: the tick lengths below are kept in microseconds.
pub const FPS_CONVERT: u64 = 1000 * 1000;

/// Length in microseconds of one tick at `rate` ticks per second.
pub fn fps(rate: u64) -> (r: u64)
    requires
        rate > 0,
    ensures
        r == FPS_CONVERT / rate,
{
    FPS_CONVERT / rate
}

/// Ticks per second for a tick of `dur` microseconds.
pub fn dur2fps(dur: u64) -> (r: u64)
    requires
        dur > 0,
    ensures
        r == FPS_CONVERT / dur,
{
    FPS_CONVERT / dur
}

#[derive(Debug, Clone, Copy, PartialEq, Eq, Structural, PartialOrd, Ord, Hash)]
pub enum DifficultyKind {
    Easy,
    Normal,
    Medium,
    Hard,
    Impossible,
    Secret,
}

/// Snake steps per second at each difficulty.
pub open spec fn rate_of(k: DifficultyKind) -> u64 {
    match k {
        DifficultyKind::Easy => 5,
        DifficultyKind::Normal => 10,
        DifficultyKind::Medium => 15,
        DifficultyKind::Hard => 30,
        DifficultyKind::Impossible => 60,
        DifficultyKind::Secret => 100,
    }
}

/// The selector's cycle: Easy, Normal, Medium, Hard, Impossible, then Easy
/// again. Secret is outside the cycle and leads to Easy.
pub open spec fn spec_next(k: DifficultyKind) -> DifficultyKind {
    match k {
        DifficultyKind::Easy => DifficultyKind::Normal,
        DifficultyKind::Normal => DifficultyKind::Medium,
        DifficultyKind::Medium => DifficultyKind::Hard,
        DifficultyKind::Hard => DifficultyKind::Impossible,
        DifficultyKind::Impossible => DifficultyKind::Easy,
        DifficultyKind::Secret => DifficultyKind::Easy,
    }
}

/// The selector's cycle backwards; Secret leads to Impossible.
pub open spec fn spec_prev(k: DifficultyKind) -> DifficultyKind {
    match k {
        DifficultyKind::Easy => DifficultyKind::Impossible,
        DifficultyKind::Normal => DifficultyKind::Easy,
        DifficultyKind::Medium => DifficultyKind::Normal,
        DifficultyKind::Hard => DifficultyKind::Medium,
        DifficultyKind::Impossible => DifficultyKind::Hard,
        DifficultyKind::Secret => DifficultyKind::Impossible,
    }
}

/// The name shown to the player.
pub open spec fn name_of(k: DifficultyKind) -> Seq<char> {
    match k {
        DifficultyKind::Easy => "Easy"@,
        DifficultyKind::Normal => "Normal"@,
        DifficultyKind::Medium => "Medium"@,
        DifficultyKind::Hard => "Hard"@,
        DifficultyKind::Impossible => "Impossible"@,
        DifficultyKind::Secret => "Secret"@,
    }
}

/// The lower-case name, as stored in the achievement ledger.
pub open spec fn key_of(k: DifficultyKind) -> Seq<char> {
    match k {
        DifficultyKind::Easy => "easy"@,
        DifficultyKind::Normal => "normal"@,
        DifficultyKind::Medium => "medium"@,
        DifficultyKind::Hard => "hard"@,
        DifficultyKind::Impossible => "impossible"@,
        DifficultyKind::Secret => "secret"@,
    }
}

/// The difficulty whose lower-case name is `s`, if any.
pub open spec fn kind_of_key(s: Seq<char>) -> Option<DifficultyKind> {
    if s == "easy"@ {
        Some(DifficultyKind::Easy)
    } else if s == "normal"@ {
        Some(DifficultyKind::Normal)
    } else if s == "medium"@ {
        Some(DifficultyKind::Medium)
    } else if s == "hard"@ {
        Some(DifficultyKind::Hard)
    } else if s == "impossible"@ {
        Some(DifficultyKind::Impossible)
    } else if s == "secret"@ {
        Some(DifficultyKind::Secret)
    } else {
        None
    }
}

/// The result of `str::to_lowercase` on a string.
pub uninterp spec fn lower_of(s: Seq<char>) -> Seq<char>;

/// Relies on str::to_lowercase: the lower-case mapping of each character,
/// which depends on the characters alone.
#[verifier::external_body]
fn lowercase(s: &str) -> (r: String)
    ensures
        r@ == lower_of(s@),
{
    s.to_lowercase()
}

/// Tick length of a difficulty, in microseconds.
#[derive(Debug, Clone, Copy, PartialEq, Eq, Structural)]
pub struct DifficultyFps(pub u64);

impl DifficultyFps {
    /// The tick length in microseconds.
    pub fn duration(&self) -> (r: u64)
        ensures
            r == self.0,
    {
        self.0
    }
}

impl Default for DifficultyFps {
    fn default() -> (r: Self)
        ensures
            r.0 == FPS_CONVERT / rate_of(DifficultyKind::Normal),
    {
        DifficultyKind::Normal.to_fps()
    }
}

impl Default for DifficultyKind {
    fn default() -> (r: Self)
        ensures
            r == DifficultyKind::Normal,
    {
        DifficultyKind::Normal
    }
}

impl DifficultyKind {
    pub fn to_fps(self) -> (r: DifficultyFps)
        ensures
            r.0 == FPS_CONVERT / rate_of(self),
            r.0 > 0,
    {
        let f: u64 = match self {
            Self::Easy => 5,
            Self::Normal => 10,
            Self::Medium => 15,
            Self::Hard => 30,
            Self::Impossible => 60,
            Self::Secret => 100,
        };
        DifficultyFps(fps(f))
    }

    /// Use in selector
    pub fn next(self) -> (r: Self)
        ensures
            r == spec_next(self),
    {
        match self {
            Self::Easy => Self::Normal,
            Self::Normal => Self::Medium,
            Self::Medium => Self::Hard,
            Self::Hard => Self::Impossible,
            Self::Impossible => Self::Easy,
            Self::Secret => Self::Easy,
        }
    }

    /// Use in selector
    pub fn prev(self) -> (r: Self)
        ensures
            r == spec_prev(self),
    {
        match self {
            Self::Easy => Self::Impossible,
            Self::Normal => Self::Easy,
            Self::Medium => Self::Normal,
            Self::Hard => Self::Medium,
            Self::Impossible => Self::Hard,
            Self::Secret => Self::Impossible,
        }
    }

    /// The name shown to the player.
    pub fn name(&self) -> (r: &'static str)
        ensures
            r@ == name_of(*self),
    {
        match self {
            Self::Easy => "Easy",
            Self::Normal => "Normal",
            Self::Medium => "Medium",
            Self::Hard => "Hard",
            Self::Impossible => "Impossible",
            Self::Secret => "Secret",
        }
    }

    /// The lower-case name, as stored in the achievement ledger.
    pub fn key(&self) -> (r: &'static str)
        ensures
            r@ == key_of(*self),
    {
        match self {
            Self::Easy => "easy",
            Self::Normal => "normal",
            Self::Medium => "medium",
            Self::Hard => "hard",
            Self::Impossible => "impossible",
            Self::Secret => "secret",
        }
    }

    /// The difficulty whose lower-case name is exactly `s`.
    pub fn from_key(s: &str) -> (r: Option<Self>)
        ensures
            r == kind_of_key(s@),
    {
        let s = s.to_owned();
        if s == "easy".to_owned() {
            Some(Self::Easy)
        } else if s == "normal".to_owned() {
            Some(Self::Normal)
        } else if s == "medium".to_owned() {
            Some(Self::Medium)
        } else if s == "hard".to_owned() {
            Some(Self::Hard)
        } else if s == "impossible".to_owned() {
            Some(Self::Impossible)
        } else if s == "secret".to_owned() {
            Some(Self::Secret)
        } else {
            None
        }
    }

    /// Parses a difficulty name, ignoring case.
    pub fn from_str(s: &str) -> (r: Result<Self, &'static str>)
        ensures
            r == match kind_of_key(lower_of(s@)) {
                Some(k) => Ok(k),
                None => Err("unknown difficulty"),
            },
    {
        let lower = lowercase(s);
        match Self::from_key(lower.as_str()) {
            Some(k) => Ok(k),
            None => Err("unknown difficulty"),
        }
    }
}

/// The difficulty in use, the one being selected, and its tick length.
#[derive(Debug, Clone, Copy, PartialEq, Eq, Structural)]
pub struct Difficulty {
    /// The difficulty in use before the selector opened
    pub prev: DifficultyKind,
    /// The difficulty shown by the selector
    pub kind: DifficultyKind,
    pub fps: DifficultyFps,
}

impl Default for Difficulty {
    fn default() -> (r: Self)
        ensures
            r.prev == DifficultyKind::Normal,
            r.kind == DifficultyKind::Normal,
            r.fps.0 == FPS_CONVERT / rate_of(DifficultyKind::Normal),
    {
        Difficulty {
            prev: DifficultyKind::Normal,
            kind: DifficultyKind::Normal,
            fps: DifficultyFps::default(),
        }
    }
}

impl Difficulty {
    pub fn update_fps(&mut self)
        ensures
            final(self).prev == old(self).prev,
            final(self).kind == old(self).kind,
            final(self).fps.0 == FPS_CONVERT / rate_of(old(self).kind),
    {
        self.fps = self.kind.to_fps();
    }
}

} // verus!
