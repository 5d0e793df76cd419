use vstd::prelude::*;

use crate::strings::{copy_opt, opt_view, same_chars, same_opt};

verus! {

/// The network to search public rooms in.
#[derive(Debug)]
pub enum RoomNetwork {
    /// The Matrix network only.
    Matrix,
    /// All networks.
    All,
    /// A third-party network, by its id.
    ThirdParty(String),
}

/// A request for a page of public rooms.
#[derive(Debug)]
pub struct PublicRoomsRequest {
    /// Where the page starts: after the page that gave this token, or from
    /// the start.
    pub since: Option<String>,
    pub search_term: Option<String>,
    pub server: Option<String>,
    pub network: RoomNetwork,
    /// The number of rooms asked for.
    pub limit: u64,
}

/// The number of rooms asked for in one page.
pub const PAGE_SIZE: u64 = 20;

/// The network a network name stands for: "matrix", "all", another name for
/// a third-party network, and the Matrix network when there is none.
pub open spec fn network_view(network: Option<Seq<char>>) -> (int, Seq<char>) {
    match network {
        Some(n) => if n == seq!['m', 'a', 't', 'r', 'i', 'x'] {
            (0, seq![])
        } else if n == seq!['a', 'l', 'l'] {
            (1, seq![])
        } else {
            (2, n)
        },
        None => (0, seq![]),
    }
}

/// A network by the number of its kind and, for a third-party one, its id.
pub open spec fn room_network_view(n: RoomNetwork) -> (int, Seq<char>) {
    match n {
        RoomNetwork::Matrix => (0, seq![]),
        RoomNetwork::All => (1, seq![]),
        RoomNetwork::ThirdParty(id) => (2, id@),
    }
}

/// Which rooms a network name asks for: no name and "matrix" ask for the
/// Matrix network, "all" for all networks, and any other name for the
/// third-party network of that id, kept as it is.
pub proof fn lemma_network_names(n: Seq<char>)
    ensures
        network_view(None) == room_network_view(RoomNetwork::Matrix),
        network_view(Some(seq!['m', 'a', 't', 'r', 'i', 'x'])) == room_network_view(RoomNetwork::Matrix),
        network_view(Some(seq!['a', 'l', 'l'])) == room_network_view(RoomNetwork::All),
        n != seq!['m', 'a', 't', 'r', 'i', 'x'] && n != seq!['a', 'l', 'l'] ==> network_view(Some(n)) == (2int, n),
        room_network_view(RoomNetwork::Matrix) != room_network_view(RoomNetwork::All),
{
}

/// The network a network name stands for.
pub fn room_network(network: &Option<String>) -> (n: RoomNetwork)
    ensures
        room_network_view(n) == network_view(opt_view(*network)),
{
    match network {
        Some(name) => {
            let matrix = "matrix";
            let all = "all";
            proof {
                reveal_strlit("matrix");
                reveal_strlit("all");
                assert(matrix@ =~= seq!['m', 'a', 't', 'r', 'i', 'x']);
                assert(all@ =~= seq!['a', 'l', 'l']);
            }
            if same_chars(name.as_str(), matrix) {
                RoomNetwork::Matrix
            } else if same_chars(name.as_str(), all) {
                RoomNetwork::All
            } else {
                RoomNetwork::ThirdParty(name.clone())
            }
        },
        None => RoomNetwork::Matrix,
    }
}

/// A change of the list: at `position`, `removed` rows went and `added`
/// came.
#[derive(Clone, Copy, Debug, PartialEq, Eq, Structural)]
pub struct ListChange {
    pub position: usize,
    pub removed: usize,
    pub added: usize,
}

/// The rows after a page of rooms came: the last row, which shows that more
/// is loading, goes; the rooms come after the others; and a row that shows
/// that more is loading comes last, unless the list is complete.
pub open spec fn rows_after_page(rows: Seq<Option<Seq<char>>>, chunk: Seq<Seq<char>>, complete: bool) -> Seq<Option<Seq<char>>> {
    let kept = if rows.len() > 0 { rows.drop_last() } else { rows };
    let with_rooms = kept + Seq::new(chunk.len(), |i: int| Some(chunk[i]));
    if complete { with_rooms } else { with_rooms.push(None) }
}

/// The change of the list after a page of `added` rooms came to a list of
/// `len` rows.
pub open spec fn page_change(len: nat, added: nat, complete: bool) -> (int, int, int) {
    if !complete {
        if len == 0 {
            (0, 0, added as int + 1)
        } else {
            (len - 1, 0, added as int)
        }
    } else if len == 0 {
        (0, 0, added as int)
    } else {
        (len - 1, 1, added as int)
    }
}

/// The public rooms of a server, page by page, matching a search.
pub struct PublicRoomList {
    /// The rooms, by id; a row without a room shows that more is loading.
    list: Vec<Option<String>>,
    search_term: Option<String>,
    network: Option<String>,
    server: Option<String>,
    /// The token of the next page, if there is one.
    next_batch: Option<String>,
    request_sent: bool,
    total_room_count_estimate: Option<u64>,
}

impl PublicRoomList {
    pub closed spec fn rows(&self) -> Seq<Option<Seq<char>>> {
        Seq::new(self.list@.len(), |i: int| opt_view(self.list@[i]))
    }

    pub closed spec fn term_view(&self) -> Option<Seq<char>> {
        opt_view(self.search_term)
    }

    pub closed spec fn server_view(&self) -> Option<Seq<char>> {
        opt_view(self.server)
    }

    pub closed spec fn network_name_view(&self) -> Option<Seq<char>> {
        opt_view(self.network)
    }

    pub closed spec fn next_batch_view(&self) -> Option<Seq<char>> {
        opt_view(self.next_batch)
    }

    pub closed spec fn request_sent_view(&self) -> bool {
        self.request_sent
    }

    pub closed spec fn estimate_view(&self) -> Option<u64> {
        self.total_room_count_estimate
    }

    pub fn new() -> (l: PublicRoomList)
        ensures
            l.rows().len() == 0,
            l.term_view() is None && l.server_view() is None && l.network_name_view() is None,
            l.next_batch_view() is None,
            !l.request_sent_view(),
            l.estimate_view() is None,
    {
        let l = PublicRoomList {
            list: Vec::new(),
            search_term: None,
            network: None,
            server: None,
            next_batch: None,
            request_sent: false,
            total_room_count_estimate: None,
        };
        assert(l.rows() =~= Seq::<Option<Seq<char>>>::empty());
        l
    }

    /// The number of rows.
    pub fn n_items(&self) -> (n: usize)
        ensures
            n == self.rows().len(),
    {
        self.list.len()
    }

    /// The room at row `position`; `Some(None)` for a row that shows that more
    /// is loading.
    pub fn item(&self, position: usize) -> (r: Option<Option<String>>)
        ensures
            position < self.rows().len() ==> (r matches Some(x) && opt_view(x) == self.rows()[position as int]),
            position >= self.rows().len() ==> r is None,
    {
        if position < self.list.len() {
            Some(copy_opt(&self.list[position]))
        } else {
            None
        }
    }

    /// Whether the first page is loading.
    pub fn loading(&self) -> (b: bool)
        ensures
            b == (self.request_sent_view() && self.rows().len() == 0),
    {
        self.request_sent && self.list.len() == 0
    }

    /// Whether nothing was found.
    pub fn empty(&self) -> (b: bool)
        ensures
            b == (!self.request_sent_view() && self.rows().len() == 0),
    {
        !self.request_sent && self.list.len() == 0
    }

    /// Whether all pages came.
    pub fn complete(&self) -> (b: bool)
        ensures
            b == (self.next_batch_view() is None),
    {
        self.next_batch.is_none()
    }

    /// The server's estimate of how many rooms match.
    pub fn total_room_count_estimate(&self) -> (n: Option<u64>)
        ensures
            n == self.estimate_view(),
    {
        self.total_room_count_estimate
    }

    /// Searches for other rooms; nothing happens when the search is the same.
    /// Returns the request for the first page, if one is to be sent.
    pub fn search(&mut self, search_term: Option<String>, server: Option<String>, network: Option<String>) -> (r: Option<PublicRoomsRequest>)
        ensures
            (opt_view(search_term) == old(self).term_view() && opt_view(server) == old(self).server_view()
                && opt_view(network) == old(self).network_name_view()) ==> r is None
                && final(self).rows() == old(self).rows() && final(self).request_sent_view() == old(self).request_sent_view()
                && final(self).next_batch_view() == old(self).next_batch_view(),
            !(opt_view(search_term) == old(self).term_view() && opt_view(server) == old(self).server_view()
                && opt_view(network) == old(self).network_name_view()) ==> final(self).term_view() == opt_view(search_term)
                && final(self).server_view() == opt_view(server) && final(self).network_name_view() == opt_view(network)
                && final(self).rows().len() == 0 && final(self).next_batch_view() is None
                && final(self).request_sent_view()
                && (r matches Some(req) && req.since is None && req.limit == PAGE_SIZE && opt_view(req.search_term) == opt_view(search_term)
                    && opt_view(req.server) == opt_view(server)
                    && room_network_view(req.network) == network_view(opt_view(network))),
    {
        if same_opt(&self.search_term, &search_term) && same_opt(&self.server, &server) && same_opt(&self.network, &network) {
            return None;
        }
        self.search_term = search_term;
        self.server = server;
        self.network = network;
        self.load_public_rooms(true)
    }

    /// Whether a response to a search for these terms belongs to the current
    /// search.
    pub fn is_valid_response(&self, search_term: &Option<String>, server: &Option<String>, network: &Option<String>) -> (b: bool)
        ensures
            b == (self.term_view() == opt_view(*search_term) && self.server_view() == opt_view(*server)
                && self.network_name_view() == opt_view(*network)),
    {
        same_opt(&self.search_term, search_term) && same_opt(&self.server, server) && same_opt(&self.network, network)
    }

    /// Loads the next page, or the first one anew when `clear`, which empties
    /// the list. Nothing is asked while a request is out, unless `clear`, nor
    /// when all pages came. Returns the request to send.
    pub fn load_public_rooms(&mut self, clear: bool) -> (r: Option<PublicRoomsRequest>)
        ensures
            final(self).term_view() == old(self).term_view(),
            final(self).server_view() == old(self).server_view(),
            final(self).network_name_view() == old(self).network_name_view(),
            old(self).request_sent_view() && !clear ==> r is None && final(self).rows() == old(self).rows()
                && final(self).request_sent_view() && final(self).next_batch_view() == old(self).next_batch_view(),
            !(old(self).request_sent_view() && !clear) ==> final(self).request_sent_view()
                && final(self).rows() == (if clear { Seq::<Option<Seq<char>>>::empty() } else { old(self).rows() })
                && final(self).next_batch_view() == (if clear { None } else { old(self).next_batch_view() })
                && (if !clear && old(self).next_batch_view() is None {
                    r is None
                } else {
                    r matches Some(req) && opt_view(req.since) == final(self).next_batch_view()
                        && req.limit == PAGE_SIZE
                        && opt_view(req.search_term) == old(self).term_view()
                        && opt_view(req.server) == old(self).server_view()
                        && room_network_view(req.network) == network_view(old(self).network_name_view())
                }),
    {
        if self.request_sent && !clear {
            return None;
        }
        if clear {
            self.list = Vec::new();
            self.next_batch = None;
            assert(self.rows() =~= Seq::<Option<Seq<char>>>::empty());
        }
        self.request_sent = true;
        if self.next_batch.is_none() && !clear {
            return None;
        }
        Some(PublicRoomsRequest {
            since: copy_opt(&self.next_batch),
            search_term: copy_opt(&self.search_term),
            server: copy_opt(&self.server),
            network: room_network(&self.network),
            limit: PAGE_SIZE,
        })
    }

    /// Takes a page of rooms, by id, with the token of the next page and the
    /// estimate of how many rooms match. Returns the change of the list, when
    /// rows came.
    pub fn handle_public_rooms_response(&mut self, next_batch: Option<String>, estimate: Option<u64>, chunk: Vec<String>) -> (change: Option<ListChange>)
        requires
            chunk@.len() < usize::MAX,
        ensures
            final(self).next_batch_view() == opt_view(next_batch),
            final(self).estimate_view() == estimate,
            !final(self).request_sent_view(),
            final(self).rows() == rows_after_page(old(self).rows(), Seq::new(chunk@.len(), |i: int| chunk@[i]@), next_batch is None),
            final(self).term_view() == old(self).term_view(),
            final(self).server_view() == old(self).server_view(),
            final(self).network_name_view() == old(self).network_name_view(),
            ({
                let (p, rem, add) = page_change(old(self).rows().len(), chunk@.len(), next_batch is None);
                if chunk@.len() > 0 {
                    change matches Some(c) && c.position == p && c.removed == rem && c.added == add
                } else {
                    change is None
                }
            }),
    {
        self.next_batch = next_batch;
        self.total_room_count_estimate = estimate;
        let ghost rows0 = self.rows();
        let ghost cv = Seq::new(chunk@.len(), |i: int| chunk@[i]@);
        let position = self.list.len();
        let added = chunk.len();
        if position > 0 {
            self.list.pop();
        }
        let ghost kept = self.rows();
        assert(kept =~= if rows0.len() > 0 { rows0.drop_last() } else { rows0 });
        let mut i: usize = 0;
        let mut rest = chunk;
        let ghost all = rest@;
        let ghost nb = self.next_batch_view();
        while rest.len() > 0
            invariant
                all.len() == added,
                self.next_batch_view() == nb,
                self.estimate_view() == estimate,
                self.term_view() == old(self).term_view(),
                self.server_view() == old(self).server_view(),
                self.network_name_view() == old(self).network_name_view(),
                rest@ == all.skip(i as int),
                i <= all.len(),
                self.rows() == kept + Seq::new(i as nat, |k: int| Some(all[k]@)),
                self.list@.len() == kept.len() + i,
            decreases rest@.len(),
        {
            let room = rest.remove(0);
            assert(room == all[i as int]);
            let ghost before = self.rows();
            let ghost rv = room@;
            self.list.push(Some(room));
            assert(self.rows() =~= before.push(Some(rv)));
            i = i + 1;
            assert(rest@ =~= all.skip(i as int));
            assert(self.rows() =~= kept + Seq::new(i as nat, |k: int| Some(all[k]@)));
        }
        assert(Seq::new(i as nat, |k: int| Some(all[k]@)) =~= Seq::new(cv.len(), |k: int| Some(cv[k])));
        let complete = self.next_batch.is_none();
        if !complete {
            let ghost before = self.rows();
            self.list.push(None);
            assert(self.rows() =~= before.push(None));
        }
        self.request_sent = false;
        let (p, removed, add) = if !complete {
            if position == 0 {
                (position, 0, added + 1)
            } else {
                (position - 1, 0, added)
            }
        } else if position == 0 {
            (position, 0, added)
        } else {
            (position - 1, 1, added)
        };
        if added > 0 {
            Some(ListChange { position: p, removed, added: add })
        } else {
            None
        }
    }

    /// A request that failed: another can be sent.
    pub fn handle_error(&mut self)
        ensures
            !final(self).request_sent_view(),
            final(self).rows() == old(self).rows(),
            final(self).next_batch_view() == old(self).next_batch_view(),
    {
        self.request_sent = false;
    }
}

/// What pressing a room of the directory does.
#[derive(Debug)]
pub enum PublicRoomAction {
    /// Show the room, which the user knows already, by its id.
    View(String),
    /// Join the room with this id.
    Join(String),
    /// Nothing: the row has no room.
    Nothing,
}

/// A room of the directory: its id, and whether the user knows it.
pub struct PublicRoom {
    /// The id of the room in the directory, once the row has one.
    matrix_public_room: Option<String>,
    /// Whether the session's room list has the room.
    known: bool,
    /// Whether a request to join is out.
    pending: bool,
}

impl PublicRoom {
    pub closed spec fn room_id_view(&self) -> Option<Seq<char>> {
        opt_view(self.matrix_public_room)
    }

    pub closed spec fn known_view(&self) -> bool {
        self.known
    }

    pub closed spec fn pending_view(&self) -> bool {
        self.pending
    }

    pub fn new() -> (r: PublicRoom)
        ensures
            r.room_id_view() is None,
            !r.known_view(),
            !r.pending_view(),
    {
        PublicRoom { matrix_public_room: None, known: false, pending: false }
    }

    /// Sets the room of the directory, and whether the room list knows it.
    pub fn set_matrix_public_room(&mut self, room_id: String, known: bool)
        ensures
            final(self).room_id_view() == Some(room_id@),
            final(self).known_view() == known,
            final(self).pending_view() == old(self).pending_view(),
    {
        self.matrix_public_room = Some(room_id);
        self.known = known;
    }

    /// The room list came to know the room.
    pub fn set_room(&mut self)
        ensures
            final(self).known_view(),
            final(self).room_id_view() == old(self).room_id_view(),
            final(self).pending_view() == old(self).pending_view(),
    {
        self.known = true;
    }

    pub fn set_pending(&mut self, pending: bool)
        ensures
            final(self).pending_view() == pending,
            final(self).known_view() == old(self).known_view(),
            final(self).room_id_view() == old(self).room_id_view(),
    {
        self.pending = pending;
    }

    pub fn is_pending(&self) -> (b: bool)
        ensures
            b == self.pending_view(),
    {
        self.pending
    }

    /// A known room is shown; another one is joined.
    pub fn join_or_view(&self) -> (a: PublicRoomAction)
        ensures
            match self.room_id_view() {
                Some(id) => if self.known_view() {
                    a matches PublicRoomAction::View(v) && v@ == id
                } else {
                    a matches PublicRoomAction::Join(j) && j@ == id
                },
                None => a matches PublicRoomAction::Nothing,
            },
    {
        match &self.matrix_public_room {
            Some(id) => {
                if self.known {
                    PublicRoomAction::View(id.clone())
                } else {
                    PublicRoomAction::Join(id.clone())
                }
            },
            None => PublicRoomAction::Nothing,
        }
    }
}

/// What the room directory shows.
#[derive(Clone, Copy, Debug, PartialEq, Eq, Structural)]
pub enum ExplorePage {
    /// A spinner, while the first page loads.
    Spinner,
    /// A label that says that nothing was found.
    Empty,
    /// The rooms found.
    Results,
}

/// The page of the room directory for its list of rooms.
pub fn explore_page(list: &PublicRoomList) -> (p: ExplorePage)
    ensures
        p == if list.request_sent_view() && list.rows().len() == 0 {
            ExplorePage::Spinner
        } else if !list.request_sent_view() && list.rows().len() == 0 {
            ExplorePage::Empty
        } else {
            ExplorePage::Results
        },
{
    if list.loading() {
        ExplorePage::Spinner
    } else if list.empty() {
        ExplorePage::Empty
    } else {
        ExplorePage::Results
    }
}

/// The networks of the room directory, by id and name: the Matrix network,
/// all rooms, and then the instances of the server's protocols, in order.
pub fn network_menu(instances: Vec<(String, String)>) -> (menu: Vec<(String, String)>)
    ensures
        menu@.len() == instances@.len() + 2,
        menu@[0].0@ == seq!['m', 'a', 't', 'r', 'i', 'x'] && menu@[0].1@ == seq!['M', 'a', 't', 'r', 'i', 'x'],
        menu@[1].0@ == seq!['a', 'l', 'l'] && menu@[1].1@ == seq!['A', 'l', 'l', ' ', 'r', 'o', 'o', 'm', 's'],
        menu@.skip(2) == instances@,
{
    let (matrix_id, matrix_name, all_id, all_name) = ("matrix", "Matrix", "all", "All rooms");
    proof {
        reveal_strlit("matrix");
        reveal_strlit("Matrix");
        reveal_strlit("all");
        reveal_strlit("All rooms");
    }
    let mut menu: Vec<(String, String)> = Vec::new();
    menu.push((matrix_id.to_owned(), matrix_name.to_owned()));
    menu.push((all_id.to_owned(), all_name.to_owned()));
    let ghost head = menu@;
    let mut rest = instances;
    let ghost all = rest@;
    let n: usize = rest.len();
    let mut i: usize = 0;
    while rest.len() > 0
        invariant
            head.len() == 2,
            rest@ == all.skip(i as int),
            i <= all.len(),
            all.len() == n,
            menu@ == head + all.take(i as int),
        decreases rest@.len(),
    {
        let entry = rest.remove(0);
        assert(entry == all[i as int]);
        menu.push(entry);
        i = i + 1;
        assert(rest@ =~= all.skip(i as int));
        assert(menu@ =~= head + all.take(i as int));
    }
    assert(all.take(i as int) =~= all);
    assert(menu@.skip(2) =~= all);
    menu
}

} // verus!
