//! Packed dates, times and attribute bits of a directory entry.

use vstd::prelude::*;

verus! {

/// A date as packed into 16 bits on disk: seven bits of years since 1980,
/// four bits of month, five bits of day.
#[derive(Default, Debug, Copy, Clone, PartialEq, Eq, Structural)]
pub struct Date(pub u16);

impl Date {
    /// The year of a packed date.
    pub open spec fn year_of(raw: u16) -> int {
        (raw >> 9) as int + 1980
    }

    /// The month of a packed date.
    pub open spec fn month_of(raw: u16) -> u8 {
        ((raw >> 5) & 0xF) as u8
    }

    /// The day of a packed date.
    pub open spec fn day_of(raw: u16) -> u8 {
        (raw & 0x1F) as u8
    }

    /// The packed form of a year, a month and a day.
    pub open spec fn pack(year: int, month: u8, day: u8) -> u16 {
        (((year - 1980) as u16) << 9) | ((month as u16) << 5) | (day as u16)
    }

    pub fn year(&self) -> (r: usize)
        ensures
            r == Self::year_of(self.0),
            1980 <= r <= 2107,
    {
        let raw: u16 = self.0;
        assert(raw >> 9 <= 127) by (bit_vector);
        (raw >> 9) as usize + 1980
    }

    pub fn month(&self) -> (r: u8)
        ensures
            r == Self::month_of(self.0),
            r <= 15,
    {
        let raw: u16 = self.0;
        assert((raw & 0x1E0) >> 5 == (raw >> 5) & 0xF) by (bit_vector);
        assert((raw >> 5) & 0xF <= 15) by (bit_vector);
        ((raw & 0x1E0) >> 5) as u8
    }

    pub fn day(&self) -> (r: u8)
        ensures
            r == Self::day_of(self.0),
            r <= 31,
    {
        let raw: u16 = self.0;
        assert(raw & 0x1F <= 31) by (bit_vector);
        (raw & 0x1F) as u8
    }
}

/// Packing a date and reading it back gives the year, the month and the day
/// that went in, for every year from 1980 to 2107, every month that fits in
/// four bits and every day that fits in five.
pub proof fn lemma_date_round_trip(year: int, month: u8, day: u8)
    requires
        1980 <= year <= 2107,
        month <= 15,
        day <= 31,
    ensures
        Date::year_of(Date::pack(year, month, day)) == year,
        Date::month_of(Date::pack(year, month, day)) == month,
        Date::day_of(Date::pack(year, month, day)) == day,
{
    let y: u16 = (year - 1980) as u16;
    let m: u16 = month as u16;
    let d: u16 = day as u16;
    assert(((y << 9) | (m << 5) | d) >> 9 == y) by (bit_vector)
        requires
            y <= 127,
            m <= 15,
            d <= 31,
    ;
    assert((((y << 9) | (m << 5) | d) >> 5) & 0xF == m) by (bit_vector)
        requires
            y <= 127,
            m <= 15,
            d <= 31,
    ;
    assert(((y << 9) | (m << 5) | d) & 0x1F == d) by (bit_vector)
        requires
            y <= 127,
            m <= 15,
            d <= 31,
    ;
}

/// A time of day as packed into 16 bits on disk: five bits of hours, six
/// bits of minutes, five bits of seconds counted in pairs.
#[derive(Default, Debug, Copy, Clone, PartialEq, Eq, Structural)]
pub struct Time(pub u16);

impl Time {
    /// The hour of a packed time.
    pub open spec fn hour_of(raw: u16) -> u8 {
        (raw >> 11) as u8
    }

    /// The minute of a packed time.
    pub open spec fn minute_of(raw: u16) -> u8 {
        ((raw >> 5) & 0x3F) as u8
    }

    /// The second of a packed time.
    pub open spec fn second_of(raw: u16) -> u8 {
        ((raw & 0x1F) * 2) as u8
    }

    pub fn hour(&self) -> (r: u8)
        ensures
            r == Self::hour_of(self.0),
            r <= 31,
    {
        let raw: u16 = self.0;
        assert(raw >> 11 <= 31) by (bit_vector);
        (raw >> 11) as u8
    }

    pub fn minute(&self) -> (r: u8)
        ensures
            r == Self::minute_of(self.0),
            r <= 63,
    {
        let raw: u16 = self.0;
        assert((raw & 0x7E0) >> 5 == (raw >> 5) & 0x3F) by (bit_vector);
        assert((raw >> 5) & 0x3F <= 63) by (bit_vector);
        ((raw & 0x7E0) >> 5) as u8
    }

    pub fn second(&self) -> (r: u8)
        ensures
            r == Self::second_of(self.0),
            r <= 62,
            r % 2 == 0,
    {
        let raw: u16 = self.0;
        assert(raw & 0x1F <= 31) by (bit_vector);
        let pairs: u8 = (raw & 0x1F) as u8;
        pairs * 2
    }
}

/// The attribute bits of a directory entry.
#[derive(Default, Debug, Copy, Clone, PartialEq, Eq, Structural)]
pub struct Attributes(pub u8);

impl Attributes {
    pub const READ_ONLY: u8 = 0x01;

    pub const HIDDEN: u8 = 0x02;

    pub const SYSTEM: u8 = 0x04;

    pub const VOLUME_ID: u8 = 0x08;

    pub const DIRECTORY: u8 = 0x10;

    pub const ARCHIVE: u8 = 0x20;

    /// The value that marks a slot of a long file name: the four low bits
    /// set and nothing else.
    pub const LFN: u8 = 0x0F;

    /// Whether every bit of `mask` is set in `raw`.
    pub open spec fn has(raw: u8, mask: u8) -> bool {
        raw & mask == mask
    }

    pub fn read_only(&self) -> (r: bool)
        ensures
            r == Self::has(self.0, 0x01),
    {
        self.0 & Self::READ_ONLY == Self::READ_ONLY
    }

    pub fn hidden(&self) -> (r: bool)
        ensures
            r == Self::has(self.0, 0x02),
    {
        self.0 & Self::HIDDEN == Self::HIDDEN
    }

    pub fn system(&self) -> (r: bool)
        ensures
            r == Self::has(self.0, 0x04),
    {
        self.0 & Self::SYSTEM == Self::SYSTEM
    }

    pub fn volume_id(&self) -> (r: bool)
        ensures
            r == Self::has(self.0, 0x08),
    {
        self.0 & Self::VOLUME_ID == Self::VOLUME_ID
    }

    pub fn directory(&self) -> (r: bool)
        ensures
            r == Self::has(self.0, 0x10),
    {
        self.0 & Self::DIRECTORY == Self::DIRECTORY
    }

    pub fn archive(&self) -> (r: bool)
        ensures
            r == Self::has(self.0, 0x20),
    {
        self.0 & Self::ARCHIVE == Self::ARCHIVE
    }

    pub fn lfn(&self) -> (r: bool)
        ensures
            r == (self.0 == 0x0F),
    {
        self.0 == Self::LFN
    }
}

/// A date together with a time of day.
#[derive(Default, Debug, Copy, Clone, PartialEq, Eq, Structural)]
pub struct Timestamp {
    pub time: Time,
    pub date: Date,
}

impl Timestamp {
    pub fn year(&self) -> (r: usize)
        ensures
            r == Date::year_of(self.date.0),
    {
        self.date.year()
    }

    pub fn month(&self) -> (r: u8)
        ensures
            r == Date::month_of(self.date.0),
    {
        self.date.month()
    }

    pub fn day(&self) -> (r: u8)
        ensures
            r == Date::day_of(self.date.0),
    {
        self.date.day()
    }

    pub fn hour(&self) -> (r: u8)
        ensures
            r == Time::hour_of(self.time.0),
    {
        self.time.hour()
    }

    pub fn minute(&self) -> (r: u8)
        ensures
            r == Time::minute_of(self.time.0),
    {
        self.time.minute()
    }

    pub fn second(&self) -> (r: u8)
        ensures
            r == Time::second_of(self.time.0),
    {
        self.time.second()
    }
}

/// What a directory entry records about a file or directory besides its name
/// and its place on disk.
#[derive(Default, Debug, Copy, Clone, PartialEq, Eq, Structural)]
pub struct Metadata {
    pub attr: Attributes,
    pub ctime: Timestamp,
    pub atime: Timestamp,
    pub mtime: Timestamp,
    pub size: u32,
}

impl Metadata {
    /// Whether the entry is read only.
    pub fn read_only(&self) -> (r: bool)
        ensures
            r == Attributes::has(self.attr.0, 0x01),
    {
        self.attr.read_only()
    }

    /// Whether the entry is to be left out of directory listings.
    pub fn hidden(&self) -> (r: bool)
        ensures
            r == Attributes::has(self.attr.0, 0x02),
    {
        self.attr.hidden()
    }

    /// When the entry was created.
    pub fn created(&self) -> (r: Timestamp)
        ensures
            r == self.ctime,
    {
        self.ctime
    }

    /// When the entry was last read.
    pub fn accessed(&self) -> (r: Timestamp)
        ensures
            r == self.atime,
    {
        self.atime
    }

    /// When the entry was last written.
    pub fn modified(&self) -> (r: Timestamp)
        ensures
            r == self.mtime,
    {
        self.mtime
    }
}

} // verus!
