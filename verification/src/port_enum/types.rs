use vstd::prelude::*;

verus! {

/// One listening TCP port as shown to the user.
#[derive(Debug, Clone, PartialEq, Eq)]
pub struct PortEntry {
    pub port: u16,
    pub pid: u32,
    pub process_name: String,
    pub user: String,
    pub is_current_user: bool,
}

/// The mathematical value of a [`PortEntry`]: strings as character sequences.
pub struct PortEntryView {
    pub port: u16,
    pub pid: u32,
    pub process_name: Seq<char>,
    pub user: Seq<char>,
    pub is_current_user: bool,
}

impl View for PortEntry {
    type V = PortEntryView;

    open spec fn view(&self) -> PortEntryView {
        PortEntryView {
            port: self.port,
            pid: self.pid,
            process_name: self.process_name@,
            user: self.user@,
            is_current_user: self.is_current_user,
        }
    }
}

/// The views of a sequence of entries.
pub open spec fn entries_view(entries: Seq<PortEntry>) -> Seq<PortEntryView> {
    entries.map_values(|e: PortEntry| e@)
}

impl PortEntry {
    /// A field-by-field copy of this entry.
    pub fn duplicate(&self) -> (copy: PortEntry)
        ensures
            copy@ == self@,
    {
        PortEntry {
            port: self.port,
            pid: self.pid,
            process_name: self.process_name.clone(),
            user: self.user.clone(),
            is_current_user: self.is_current_user,
        }
    }
}

/// One listening socket as the operating system reports it, before any
/// decision has been made about it.
#[derive(Debug, Clone)]
pub struct RawListener {
    pub port: u16,
    pub pid: u32,
    pub is_v4: bool,
    pub process_name: String,
    pub user: String,
}

pub struct RawListenerView {
    pub port: u16,
    pub pid: u32,
    pub is_v4: bool,
    pub process_name: Seq<char>,
    pub user: Seq<char>,
}

impl View for RawListener {
    type V = RawListenerView;

    open spec fn view(&self) -> RawListenerView {
        RawListenerView {
            port: self.port,
            pid: self.pid,
            is_v4: self.is_v4,
            process_name: self.process_name@,
            user: self.user@,
        }
    }
}

/// Every listening socket, plus who and which process is asking.
#[derive(Debug, Clone)]
pub struct RawScan {
    pub listeners: Vec<RawListener>,
    pub current_user: String,
    pub current_pid: u32,
}

pub struct RawScanView {
    pub listeners: Seq<RawListenerView>,
    pub current_user: Seq<char>,
    pub current_pid: u32,
}

impl View for RawScan {
    type V = RawScanView;

    open spec fn view(&self) -> RawScanView {
        RawScanView {
            listeners: self.listeners@.map_values(|l: RawListener| l@),
            current_user: self.current_user@,
            current_pid: self.current_pid,
        }
    }
}

} // verus!
