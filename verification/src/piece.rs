//! Piece kinds and pieces.
//!
//! The values are chosen so that adding 8 promotes a promotable kind, the
//! remainder by 8 takes a promotion back, and adding 16 to a HUM piece
//! gives the COM piece of the same kind.

use vstd::prelude::*;
use crate::shogi::Side;
use crate::direction::Direction;

verus! {

/// A kind of piece, without a side.
#[derive(Clone, Copy, Debug, PartialEq, Eq, Structural, Hash, PartialOrd, Ord)]
pub enum PieceKind {
    NoPieceKind,
    Pawn,
    Lance,
    Knight,
    Silver,
    Bishop,
    Rook,
    Gold,
    King,
    ProPawn,
    ProLance,
    ProKnight,
    ProSilver,
    Horse,
    Dragon,
}

pub const NO_PIECE_KIND: PieceKind = PieceKind::NoPieceKind;

pub const PAWN: PieceKind = PieceKind::Pawn;

pub const LANCE: PieceKind = PieceKind::Lance;

pub const KNIGHT: PieceKind = PieceKind::Knight;

pub const SILVER: PieceKind = PieceKind::Silver;

pub const BISHOP: PieceKind = PieceKind::Bishop;

pub const ROOK: PieceKind = PieceKind::Rook;

pub const GOLD: PieceKind = PieceKind::Gold;

pub const KING: PieceKind = PieceKind::King;

pub const PRO_PAWN: PieceKind = PieceKind::ProPawn;

pub const PRO_LANCE: PieceKind = PieceKind::ProLance;

pub const PRO_KNIGHT: PieceKind = PieceKind::ProKnight;

pub const PRO_SILVER: PieceKind = PieceKind::ProSilver;

pub const HORSE: PieceKind = PieceKind::Horse;

pub const DRAGON: PieceKind = PieceKind::Dragon;

impl PieceKind {
    /// The value of the kind, 0 to 14.
    pub open spec fn value(self) -> int {
        match self {
            PieceKind::NoPieceKind => 0,
            PieceKind::Pawn => 1,
            PieceKind::Lance => 2,
            PieceKind::Knight => 3,
            PieceKind::Silver => 4,
            PieceKind::Bishop => 5,
            PieceKind::Rook => 6,
            PieceKind::Gold => 7,
            PieceKind::King => 8,
            PieceKind::ProPawn => 9,
            PieceKind::ProLance => 10,
            PieceKind::ProKnight => 11,
            PieceKind::ProSilver => 12,
            PieceKind::Horse => 13,
            PieceKind::Dragon => 14,
        }
    }

    /// The kind with value `v`.
    pub open spec fn of_value(v: int) -> PieceKind {
        if v == 0 {
            PieceKind::NoPieceKind
        } else if v == 1 {
            PieceKind::Pawn
        } else if v == 2 {
            PieceKind::Lance
        } else if v == 3 {
            PieceKind::Knight
        } else if v == 4 {
            PieceKind::Silver
        } else if v == 5 {
            PieceKind::Bishop
        } else if v == 6 {
            PieceKind::Rook
        } else if v == 7 {
            PieceKind::Gold
        } else if v == 8 {
            PieceKind::King
        } else if v == 9 {
            PieceKind::ProPawn
        } else if v == 10 {
            PieceKind::ProLance
        } else if v == 11 {
            PieceKind::ProKnight
        } else if v == 12 {
            PieceKind::ProSilver
        } else if v == 13 {
            PieceKind::Horse
        } else {
            PieceKind::Dragon
        }
    }

    pub open spec fn spec_is_piece(self) -> bool {
        1 <= self.value()
    }

    pub open spec fn spec_is_promotable(self) -> bool {
        1 <= self.value() <= 6
    }

    pub open spec fn spec_is_promoted(self) -> bool {
        9 <= self.value()
    }

    pub open spec fn spec_is_hand(self) -> bool {
        1 <= self.value() <= 7
    }

    pub open spec fn spec_has_ranged_effect(self) -> bool {
        self == PieceKind::Lance || self == PieceKind::Bishop || self == PieceKind::Rook || self
            == PieceKind::Horse || self == PieceKind::Dragon
    }

    /// The promoted kind of a promotable kind.
    pub open spec fn promoted(self) -> PieceKind {
        PieceKind::of_value(self.value() + 8)
    }

    /// The kind with a promotion taken back.
    pub open spec fn raw(self) -> PieceKind {
        PieceKind::of_value(self.value() % 8)
    }

    /// The kind with value `inner`, which must be at most 14.
    pub fn from_inner(inner: u32) -> (r: PieceKind)
        requires
            inner <= 14,
        ensures
            r == PieceKind::of_value(inner as int),
            r.value() == inner,
    {
        if inner == 0 {
            PieceKind::NoPieceKind
        } else if inner == 1 {
            PieceKind::Pawn
        } else if inner == 2 {
            PieceKind::Lance
        } else if inner == 3 {
            PieceKind::Knight
        } else if inner == 4 {
            PieceKind::Silver
        } else if inner == 5 {
            PieceKind::Bishop
        } else if inner == 6 {
            PieceKind::Rook
        } else if inner == 7 {
            PieceKind::Gold
        } else if inner == 8 {
            PieceKind::King
        } else if inner == 9 {
            PieceKind::ProPawn
        } else if inner == 10 {
            PieceKind::ProLance
        } else if inner == 11 {
            PieceKind::ProKnight
        } else if inner == 12 {
            PieceKind::ProSilver
        } else if inner == 13 {
            PieceKind::Horse
        } else {
            PieceKind::Dragon
        }
    }

    /// Every value of this type is a kind; "no piece" counts as one.
    pub fn is_valid(self) -> (r: bool)
        ensures
            r,
    {
        true
    }

    /// Whether this is a kind of piece, that is not "no piece".
    #[verifier::when_used_as_spec(spec_is_piece)]
    pub fn is_piece(self) -> (r: bool)
        ensures
            r == self.spec_is_piece(),
    {
        self.inner() >= 1
    }

    /// Whether the kind can promote: pawn to rook.
    #[verifier::when_used_as_spec(spec_is_promotable)]
    pub fn is_promotable(self) -> (r: bool)
        ensures
            r == self.spec_is_promotable(),
    {
        let v: u32 = self.inner();
        1 <= v && v <= 6
    }

    /// Whether the kind is a promoted one.
    #[verifier::when_used_as_spec(spec_is_promoted)]
    pub fn is_promoted(self) -> (r: bool)
        ensures
            r == self.spec_is_promoted(),
    {
        self.inner() >= 9
    }

    /// Whether the kind can be held in hand: pawn to gold.
    #[verifier::when_used_as_spec(spec_is_hand)]
    pub fn is_hand(self) -> (r: bool)
        ensures
            r == self.spec_is_hand(),
    {
        let v: u32 = self.inner();
        1 <= v && v <= 7
    }

    /// Whether the kind attacks along a ray: lance, bishop, rook, horse and
    /// dragon.
    #[verifier::when_used_as_spec(spec_has_ranged_effect)]
    pub fn has_ranged_effect(self) -> (r: bool)
        ensures
            r == self.spec_has_ranged_effect(),
    {
        let v: u32 = self.inner();
        v == 2 || v == 5 || v == 6 || v == 13 || v == 14
    }

    /// The promoted kind of a promotable kind.
    pub fn to_promoted(self) -> (r: PieceKind)
        requires
            self.is_promotable(),
        ensures
            r == self.promoted(),
            r.value() == self.value() + 8,
    {
        PieceKind::from_inner(self.inner() + 8)
    }

    /// The kind with a promotion taken back; not for the king.
    pub fn to_raw(self) -> (r: PieceKind)
        requires
            self != PieceKind::King,
        ensures
            r == self.raw(),
            r.value() == self.value() % 8,
            !r.is_promoted(),
    {
        PieceKind::from_inner(self.inner() % 8)
    }

    /// The fourteen kinds of piece in ascending order of value.
    pub fn iter_piece() -> (r: Vec<PieceKind>)
        ensures
            r@.len() == 14,
            forall|i: int| 0 <= i < 14 ==> (#[trigger] r@[i]).value() == i + 1,
    {
        let mut v: Vec<PieceKind> = Vec::new();
        let mut i: u32 = 1;
        while i <= 14
            invariant
                1 <= i <= 15,
                v@.len() == i - 1,
                forall|j: int| 0 <= j < i - 1 ==> (#[trigger] v@[j]).value() == j + 1,
            decreases 15 - i,
        {
            v.push(PieceKind::from_inner(i));
            i += 1;
        }
        v
    }

    /// The seven kinds that can be held in hand in ascending order of value.
    pub fn iter_hand() -> (r: Vec<PieceKind>)
        ensures
            r@.len() == 7,
            forall|i: int| 0 <= i < 7 ==> (#[trigger] r@[i]).value() == i + 1,
    {
        let mut v: Vec<PieceKind> = Vec::new();
        let mut i: u32 = 1;
        while i <= 7
            invariant
                1 <= i <= 8,
                v@.len() == i - 1,
                forall|j: int| 0 <= j < i - 1 ==> (#[trigger] v@[j]).value() == j + 1,
            decreases 8 - i,
        {
            v.push(PieceKind::from_inner(i));
            i += 1;
        }
        v
    }

    /// The value of the kind.
    pub fn inner(self) -> (r: u32)
        ensures
            r == self.value(),
            r <= 14,
    {
        match self {
            PieceKind::NoPieceKind => 0,
            PieceKind::Pawn => 1,
            PieceKind::Lance => 2,
            PieceKind::Knight => 3,
            PieceKind::Silver => 4,
            PieceKind::Bishop => 5,
            PieceKind::Rook => 6,
            PieceKind::Gold => 7,
            PieceKind::King => 8,
            PieceKind::ProPawn => 9,
            PieceKind::ProLance => 10,
            PieceKind::ProKnight => 11,
            PieceKind::ProSilver => 12,
            PieceKind::Horse => 13,
            PieceKind::Dragon => 14,
        }
    }
}

/// A piece: a kind together with a side, or no piece.
#[derive(Clone, Copy, Debug, PartialEq, Eq, Structural, Hash, PartialOrd, Ord)]
pub enum Piece {
    NoPiece,
    HPawn,
    HLance,
    HKnight,
    HSilver,
    HBishop,
    HRook,
    HGold,
    HKing,
    HProPawn,
    HProLance,
    HProKnight,
    HProSilver,
    HHorse,
    HDragon,
    CPawn,
    CLance,
    CKnight,
    CSilver,
    CBishop,
    CRook,
    CGold,
    CKing,
    CProPawn,
    CProLance,
    CProKnight,
    CProSilver,
    CHorse,
    CDragon,
}

pub const NO_PIECE: Piece = Piece::NoPiece;

pub const H_PAWN: Piece = Piece::HPawn;

pub const H_LANCE: Piece = Piece::HLance;

pub const H_KNIGHT: Piece = Piece::HKnight;

pub const H_SILVER: Piece = Piece::HSilver;

pub const H_BISHOP: Piece = Piece::HBishop;

pub const H_ROOK: Piece = Piece::HRook;

pub const H_GOLD: Piece = Piece::HGold;

pub const H_KING: Piece = Piece::HKing;

pub const H_PRO_PAWN: Piece = Piece::HProPawn;

pub const H_PRO_LANCE: Piece = Piece::HProLance;

pub const H_PRO_KNIGHT: Piece = Piece::HProKnight;

pub const H_PRO_SILVER: Piece = Piece::HProSilver;

pub const H_HORSE: Piece = Piece::HHorse;

pub const H_DRAGON: Piece = Piece::HDragon;

pub const C_PAWN: Piece = Piece::CPawn;

pub const C_LANCE: Piece = Piece::CLance;

pub const C_KNIGHT: Piece = Piece::CKnight;

pub const C_SILVER: Piece = Piece::CSilver;

pub const C_BISHOP: Piece = Piece::CBishop;

pub const C_ROOK: Piece = Piece::CRook;

pub const C_GOLD: Piece = Piece::CGold;

pub const C_KING: Piece = Piece::CKing;

pub const C_PRO_PAWN: Piece = Piece::CProPawn;

pub const C_PRO_LANCE: Piece = Piece::CProLance;

pub const C_PRO_KNIGHT: Piece = Piece::CProKnight;

pub const C_PRO_SILVER: Piece = Piece::CProSilver;

pub const C_HORSE: Piece = Piece::CHorse;

pub const C_DRAGON: Piece = Piece::CDragon;

impl Piece {
    /// The value of the piece: the value of the kind, plus 16 for COM.
    pub open spec fn value(self) -> int {
        match self {
            Piece::NoPiece => 0,
            Piece::HPawn => 1,
            Piece::HLance => 2,
            Piece::HKnight => 3,
            Piece::HSilver => 4,
            Piece::HBishop => 5,
            Piece::HRook => 6,
            Piece::HGold => 7,
            Piece::HKing => 8,
            Piece::HProPawn => 9,
            Piece::HProLance => 10,
            Piece::HProKnight => 11,
            Piece::HProSilver => 12,
            Piece::HHorse => 13,
            Piece::HDragon => 14,
            Piece::CPawn => 17,
            Piece::CLance => 18,
            Piece::CKnight => 19,
            Piece::CSilver => 20,
            Piece::CBishop => 21,
            Piece::CRook => 22,
            Piece::CGold => 23,
            Piece::CKing => 24,
            Piece::CProPawn => 25,
            Piece::CProLance => 26,
            Piece::CProKnight => 27,
            Piece::CProSilver => 28,
            Piece::CHorse => 29,
            Piece::CDragon => 30,
        }
    }

    /// The kind of the piece; "no piece" has the kind "no piece".
    pub open spec fn spec_kind(self) -> PieceKind {
        match self {
            Piece::NoPiece => PieceKind::NoPieceKind,
            Piece::HPawn => PieceKind::Pawn,
            Piece::HLance => PieceKind::Lance,
            Piece::HKnight => PieceKind::Knight,
            Piece::HSilver => PieceKind::Silver,
            Piece::HBishop => PieceKind::Bishop,
            Piece::HRook => PieceKind::Rook,
            Piece::HGold => PieceKind::Gold,
            Piece::HKing => PieceKind::King,
            Piece::HProPawn => PieceKind::ProPawn,
            Piece::HProLance => PieceKind::ProLance,
            Piece::HProKnight => PieceKind::ProKnight,
            Piece::HProSilver => PieceKind::ProSilver,
            Piece::HHorse => PieceKind::Horse,
            Piece::HDragon => PieceKind::Dragon,
            Piece::CPawn => PieceKind::Pawn,
            Piece::CLance => PieceKind::Lance,
            Piece::CKnight => PieceKind::Knight,
            Piece::CSilver => PieceKind::Silver,
            Piece::CBishop => PieceKind::Bishop,
            Piece::CRook => PieceKind::Rook,
            Piece::CGold => PieceKind::Gold,
            Piece::CKing => PieceKind::King,
            Piece::CProPawn => PieceKind::ProPawn,
            Piece::CProLance => PieceKind::ProLance,
            Piece::CProKnight => PieceKind::ProKnight,
            Piece::CProSilver => PieceKind::ProSilver,
            Piece::CHorse => PieceKind::Horse,
            Piece::CDragon => PieceKind::Dragon,
        }
    }

    /// The side of a piece; HUM for "no piece".
    pub open spec fn spec_side(self) -> Side {
        match self {
            Piece::NoPiece => Side::Hum,
            Piece::HPawn => Side::Hum,
            Piece::HLance => Side::Hum,
            Piece::HKnight => Side::Hum,
            Piece::HSilver => Side::Hum,
            Piece::HBishop => Side::Hum,
            Piece::HRook => Side::Hum,
            Piece::HGold => Side::Hum,
            Piece::HKing => Side::Hum,
            Piece::HProPawn => Side::Hum,
            Piece::HProLance => Side::Hum,
            Piece::HProKnight => Side::Hum,
            Piece::HProSilver => Side::Hum,
            Piece::HHorse => Side::Hum,
            Piece::HDragon => Side::Hum,
            Piece::CPawn => Side::Com,
            Piece::CLance => Side::Com,
            Piece::CKnight => Side::Com,
            Piece::CSilver => Side::Com,
            Piece::CBishop => Side::Com,
            Piece::CRook => Side::Com,
            Piece::CGold => Side::Com,
            Piece::CKing => Side::Com,
            Piece::CProPawn => Side::Com,
            Piece::CProLance => Side::Com,
            Piece::CProKnight => Side::Com,
            Piece::CProSilver => Side::Com,
            Piece::CHorse => Side::Com,
            Piece::CDragon => Side::Com,
        }
    }

    /// The piece of `side` and kind `pk`; "no piece" when `pk` is that.
    pub open spec fn of(side: Side, pk: PieceKind) -> Piece {
        match side {
            Side::Hum => match pk {
                PieceKind::NoPieceKind => Piece::NoPiece,
                PieceKind::Pawn => Piece::HPawn,
                PieceKind::Lance => Piece::HLance,
                PieceKind::Knight => Piece::HKnight,
                PieceKind::Silver => Piece::HSilver,
                PieceKind::Bishop => Piece::HBishop,
                PieceKind::Rook => Piece::HRook,
                PieceKind::Gold => Piece::HGold,
                PieceKind::King => Piece::HKing,
                PieceKind::ProPawn => Piece::HProPawn,
                PieceKind::ProLance => Piece::HProLance,
                PieceKind::ProKnight => Piece::HProKnight,
                PieceKind::ProSilver => Piece::HProSilver,
                PieceKind::Horse => Piece::HHorse,
                PieceKind::Dragon => Piece::HDragon,
            },
            Side::Com => match pk {
                PieceKind::NoPieceKind => Piece::NoPiece,
                PieceKind::Pawn => Piece::CPawn,
                PieceKind::Lance => Piece::CLance,
                PieceKind::Knight => Piece::CKnight,
                PieceKind::Silver => Piece::CSilver,
                PieceKind::Bishop => Piece::CBishop,
                PieceKind::Rook => Piece::CRook,
                PieceKind::Gold => Piece::CGold,
                PieceKind::King => Piece::CKing,
                PieceKind::ProPawn => Piece::CProPawn,
                PieceKind::ProLance => Piece::CProLance,
                PieceKind::ProKnight => Piece::CProKnight,
                PieceKind::ProSilver => Piece::CProSilver,
                PieceKind::Horse => Piece::CHorse,
                PieceKind::Dragon => Piece::CDragon,
            },
        }
    }

    pub open spec fn spec_is_piece(self) -> bool {
        self != Piece::NoPiece
    }

    /// Whether this is a piece of `side`.
    pub open spec fn is_of(self, side: Side) -> bool {
        self != Piece::NoPiece && self.spec_side() == side
    }

    pub open spec fn spec_is_promotable(self) -> bool {
        self.spec_kind().spec_is_promotable()
    }

    pub open spec fn spec_is_promoted(self) -> bool {
        self.spec_kind().spec_is_promoted()
    }

    pub open spec fn spec_has_ranged_effect(self) -> bool {
        self.spec_kind().spec_has_ranged_effect()
    }

    /// The promoted piece of a promotable piece.
    pub open spec fn promoted(self) -> Piece {
        Piece::of(self.spec_side(), self.spec_kind().promoted())
    }

    /// The direction that is forward for `side`: up for HUM, down for COM.
    pub open spec fn forward(side: Side) -> Direction {
        match side {
            Side::Hum => Direction::U,
            Side::Com => Direction::D,
        }
    }

    /// Whether the piece attacks the neighbouring square in direction `d`
    /// by a single step.
    pub open spec fn steps(self, d: Direction) -> bool {
        let fwd = Piece::forward(self.spec_side()).dr();
        match self.spec_kind() {
            PieceKind::Pawn => d.dc() == 0 && d.dr() == fwd,
            PieceKind::Silver => (d.dc() != 0 && d.dr() != 0) || (d.dc() == 0 && d.dr() == fwd),
            PieceKind::Gold | PieceKind::ProPawn | PieceKind::ProLance | PieceKind::ProKnight
            | PieceKind::ProSilver => d.dc() == 0 || d.dr() != -fwd,
            PieceKind::King => true,
            PieceKind::Horse => d.dc() == 0 || d.dr() == 0,
            PieceKind::Dragon => d.dc() != 0 && d.dr() != 0,
            _ => false,
        }
    }

    /// Whether the piece attacks along the ray in direction `d`.
    pub open spec fn slides(self, d: Direction) -> bool {
        match self.spec_kind() {
            PieceKind::Lance => d == Piece::forward(self.spec_side()),
            PieceKind::Bishop | PieceKind::Horse => d.dc() != 0 && d.dr() != 0,
            PieceKind::Rook | PieceKind::Dragon => d.dc() == 0 || d.dr() == 0,
            _ => false,
        }
    }

    /// Whether a ray of the piece's own side that ends on it in direction
    /// `d` is carried one square further: the piece itself attacks in that
    /// direction, and is not a king.
    pub open spec fn supports(self, d: Direction) -> bool {
        self.spec_kind() != PieceKind::King && (self.steps(d) || self.slides(d))
    }

    /// Whether the piece attacks the neighbouring square in direction `d`
    /// by a single step.
    pub fn steps_in(self, d: Direction) -> (r: bool)
        ensures
            r == self.steps(d),
    {
        let fwd_up: bool = self.inner() < 16;
        let k: u32 = self.inner() % 16;
        let i: u32 = d.inner();
        let diag: bool = i == 0 || i == 2 || i == 5 || i == 7;
        let ahead: bool = if fwd_up { i == 3 } else { i == 4 };
        let ahead_diag: bool = if fwd_up { i == 0 || i == 5 } else { i == 2 || i == 7 };
        let back_diag: bool = if fwd_up { i == 2 || i == 7 } else { i == 0 || i == 5 };
        if k == 1 {
            ahead
        } else if k == 4 {
            diag || ahead
        } else if k == 7 || (9 <= k && k <= 12) {
            !back_diag
        } else if k == 8 {
            true
        } else if k == 13 {
            !diag
        } else if k == 14 {
            diag
        } else {
            false
        }
    }

    /// Whether the piece attacks along the ray in direction `d`.
    pub fn slides_in(self, d: Direction) -> (r: bool)
        ensures
            r == self.slides(d),
    {
        let fwd_up: bool = self.inner() < 16;
        let k: u32 = self.inner() % 16;
        let i: u32 = d.inner();
        let diag: bool = i == 0 || i == 2 || i == 5 || i == 7;
        if k == 2 {
            if fwd_up { i == 3 } else { i == 4 }
        } else if k == 5 || k == 13 {
            diag
        } else if k == 6 || k == 14 {
            !diag
        } else {
            false
        }
    }

    /// The piece with value `inner`, which must be the value of a piece or 0.
    pub fn from_inner(inner: u32) -> (r: Piece)
        requires
            inner <= 14 || 17 <= inner <= 30,
        ensures
            r.value() == inner,
    {
        if inner == 0 {
            Piece::NoPiece
        } else if inner == 1 {
            Piece::HPawn
        } else if inner == 2 {
            Piece::HLance
        } else if inner == 3 {
            Piece::HKnight
        } else if inner == 4 {
            Piece::HSilver
        } else if inner == 5 {
            Piece::HBishop
        } else if inner == 6 {
            Piece::HRook
        } else if inner == 7 {
            Piece::HGold
        } else if inner == 8 {
            Piece::HKing
        } else if inner == 9 {
            Piece::HProPawn
        } else if inner == 10 {
            Piece::HProLance
        } else if inner == 11 {
            Piece::HProKnight
        } else if inner == 12 {
            Piece::HProSilver
        } else if inner == 13 {
            Piece::HHorse
        } else if inner == 14 {
            Piece::HDragon
        } else if inner == 17 {
            Piece::CPawn
        } else if inner == 18 {
            Piece::CLance
        } else if inner == 19 {
            Piece::CKnight
        } else if inner == 20 {
            Piece::CSilver
        } else if inner == 21 {
            Piece::CBishop
        } else if inner == 22 {
            Piece::CRook
        } else if inner == 23 {
            Piece::CGold
        } else if inner == 24 {
            Piece::CKing
        } else if inner == 25 {
            Piece::CProPawn
        } else if inner == 26 {
            Piece::CProLance
        } else if inner == 27 {
            Piece::CProKnight
        } else if inner == 28 {
            Piece::CProSilver
        } else if inner == 29 {
            Piece::CHorse
        } else {
            Piece::CDragon
        }
    }

    /// The piece of `side` and kind `pk`, which must be a kind of piece.
    pub fn new(side: Side, pk: PieceKind) -> (r: Piece)
        requires
            pk.is_piece(),
        ensures
            r == Piece::of(side, pk),
            r.spec_is_piece(),
            r.spec_side() == side,
            r.spec_kind() == pk,
            r.value() == 16 * side.index() + pk.value(),
    {
        Piece::from_inner(16 * side.inner() + pk.inner())
    }

    /// Every value of this type is a piece or "no piece".
    pub fn is_valid(self) -> (r: bool)
        ensures
            r,
    {
        true
    }

    /// Whether this is a piece, that is not "no piece".
    #[verifier::when_used_as_spec(spec_is_piece)]
    pub fn is_piece(self) -> (r: bool)
        ensures
            r == self.spec_is_piece(),
    {
        self.inner() != 0
    }

    /// Whether the piece can promote.
    #[verifier::when_used_as_spec(spec_is_promotable)]
    pub fn is_promotable(self) -> (r: bool)
        ensures
            r == self.spec_is_promotable(),
    {
        self.kind().is_promotable()
    }

    /// Whether the piece is a promoted one.
    #[verifier::when_used_as_spec(spec_is_promoted)]
    pub fn is_promoted(self) -> (r: bool)
        ensures
            r == self.spec_is_promoted(),
    {
        self.kind().is_promoted()
    }

    /// Whether the piece attacks along a ray.
    #[verifier::when_used_as_spec(spec_has_ranged_effect)]
    pub fn has_ranged_effect(self) -> (r: bool)
        ensures
            r == self.spec_has_ranged_effect(),
            r == (exists|d: Direction| self.slides(d)),
    {
        proof {
            if self.spec_has_ranged_effect() {
                if self.spec_kind() == PieceKind::Lance {
                    assert(self.slides(Piece::forward(self.spec_side())));
                } else if self.spec_kind() == PieceKind::Bishop || self.spec_kind()
                    == PieceKind::Horse {
                    assert(self.slides(Direction::RU));
                } else {
                    assert(self.slides(Direction::R));
                }
            }
        }
        self.kind().has_ranged_effect()
    }

    /// The side of a piece.
    #[verifier::when_used_as_spec(spec_side)]
    pub fn side(self) -> (r: Side)
        requires
            self.is_piece(),
        ensures
            r == self.spec_side(),
    {
        if self.inner() >= 16 {
            Side::Com
        } else {
            Side::Hum
        }
    }

    /// The kind of the piece.
    #[verifier::when_used_as_spec(spec_kind)]
    pub fn kind(self) -> (r: PieceKind)
        ensures
            r == self.spec_kind(),
            r.value() == self.value() % 16,
            r.is_piece() == self.is_piece(),
    {
        PieceKind::from_inner(self.inner() % 16)
    }

    /// The promoted piece of a promotable piece.
    pub fn to_promoted(self) -> (r: Piece)
        requires
            self.is_promotable(),
        ensures
            r == self.promoted(),
            r.value() == self.value() + 8,
            r.spec_side() == self.spec_side(),
            r.spec_kind() == self.spec_kind().promoted(),
            r.is_piece(),
    {
        Piece::from_inner(self.inner() + 8)
    }

    /// The kind of the piece with a promotion taken back; not for a king.
    pub fn to_raw_kind(self) -> (r: PieceKind)
        requires
            self.kind() != PieceKind::King,
        ensures
            r == self.spec_kind().raw(),
            r.value() == self.value() % 8,
            !r.is_promoted(),
            self.is_piece() ==> r.is_hand(),
    {
        PieceKind::from_inner(self.inner() % 8)
    }

    /// The value of the piece.
    pub fn inner(self) -> (r: u32)
        ensures
            r == self.value(),
            r <= 30,
    {
        match self {
            Piece::NoPiece => 0,
            Piece::HPawn => 1,
            Piece::HLance => 2,
            Piece::HKnight => 3,
            Piece::HSilver => 4,
            Piece::HBishop => 5,
            Piece::HRook => 6,
            Piece::HGold => 7,
            Piece::HKing => 8,
            Piece::HProPawn => 9,
            Piece::HProLance => 10,
            Piece::HProKnight => 11,
            Piece::HProSilver => 12,
            Piece::HHorse => 13,
            Piece::HDragon => 14,
            Piece::CPawn => 17,
            Piece::CLance => 18,
            Piece::CKnight => 19,
            Piece::CSilver => 20,
            Piece::CBishop => 21,
            Piece::CRook => 22,
            Piece::CGold => 23,
            Piece::CKing => 24,
            Piece::CProPawn => 25,
            Piece::CProLance => 26,
            Piece::CProKnight => 27,
            Piece::CProSilver => 28,
            Piece::CHorse => 29,
            Piece::CDragon => 30,
        }
    }
}

} // verus!
