<!doctype html>
<html lang="en" data-bs-theme="light">
<head>
<meta charset="utf-8"><meta name="viewport" content="width=device-width, initial-scale=1">
<title>CalStack</title>
<link rel="stylesheet" href="/assets/css/bootstrap.min.css">
<link rel="stylesheet" href="/assets/css/bootstrap-icons.css">
<link rel="stylesheet" href="/assets/css/summernote-bs5.min.css">
<link rel="stylesheet" href="/assets/css/app.css">
<link rel="icon" type="image/png" sizes="16x16" href="/assets/img/favicon-16x16.png">
<link rel="icon" type="image/png" sizes="32x32" href="/assets/img/favicon-32x32.png">
<link rel="apple-touch-icon" href="/assets/img/apple-touch-icon.png">
<script src="/assets/js/theme.js"></script>
<style>
  /* The calendar widget's own drawer would cover the list of calendars. */
  #calendar [data-bs-toggle="sidebar"] { display: none !important; }
</style>
</head>
<body class="bg-body-tertiary d-flex flex-column min-vh-100">
<header class="navbar navbar-expand-md d-print-none bg-body border-bottom flex-shrink-0">
  <div class="container-fluid">
    <button class="navbar-toggler" type="button" data-bs-toggle="collapse" data-bs-target="#navbar-menu" aria-controls="navbar-menu" aria-expanded="false" aria-label="Toggle navigation">
      <span class="navbar-toggler-icon"></span>
    </button>
    <a class="navbar-brand" href="/"><img src="/assets/img/logo-horizontal-small.png" alt="CalStack"></a>
    <div class="navbar-nav flex-row order-md-last">
      <div class="nav-item me-2 d-none d-md-flex">
        <button id="search-btn" class="nav-link px-2" type="button" aria-label="Search"><i class="bi bi-search"></i></button>
      </div>
      <div class="nav-item me-2 d-none d-md-flex">
        <button id="share-btn" class="nav-link px-2" type="button" aria-label="Share"><i class="bi bi-share"></i></button>
      </div>
      <div class="nav-item me-2">
        <button type="button" id="theme-toggle" class="nav-link px-0" aria-label="Toggle dark mode" title="Toggle dark mode"><i class="bi bi-circle-half"></i></button>
      </div>
      <div class="nav-item dropdown">
        <a href="#" class="nav-link d-flex lh-1 p-0 px-2" data-bs-toggle="dropdown" aria-label="Open user menu" aria-expanded="false"><i class="bi bi-person-circle fs-3"></i></a>
        <div class="dropdown-menu dropdown-menu-end dropdown-menu-arrow">
          <button type="button" class="dropdown-item" id="conn-info-btn">Connection info</button>
          <button type="button" class="dropdown-item" id="account-btn">Account</button>
          <button type="button" class="dropdown-item" id="logout-btn">Sign out</button>
        </div>
      </div>
    </div>
  </div>
</header>
<!-- menu -->
<div class="container-fluid">
  <div class="row">
    <aside class="col-md-3 col-lg-2 p-3 border-end">
      <div class="d-flex justify-content-between align-items-center mb-2">
        <span class="fw-semibold">Calendars</span>
        <button id="add-cal-btn" class="btn btn-outline-primary" style="width:2.75rem;height:2.75rem" type="button" aria-label="Add calendar">+</button>
      </div>
      <ul id="cal-list" class="list-group list-group-flush"></ul>
      <div class="d-flex justify-content-between align-items-center mb-2 mt-4">
        <span class="fw-semibold">Subscriptions</span>
      </div>
      <div class="input-group input-group-sm mb-2">
        <input id="sub-token" class="form-control" placeholder="Share token">
        <button id="sub-add-btn" class="btn btn-outline-primary" type="button">Add</button>
      </div>
      <ul id="sub-list" class="list-group list-group-flush small"></ul>
    </aside>
    <main class="col-md-9 col-lg-10 p-3">
      <div id="calendar" hidden></div>
      <p id="calendar-empty" class="text-body-secondary text-center mt-5">Select a calendar to view its events.</p>
    </main>
  </div>
</div>
<!-- footer -->
<!-- event editor -->
<div class="modal fade" id="event-modal" tabindex="-1" aria-hidden="true" data-bs-backdrop="static" data-bs-keyboard="false">
  <div class="modal-dialog"><form id="event-form" class="modal-content">
    <div class="modal-header"><h2 class="modal-title h5">Event</h2>
      <button type="button" class="btn-close" data-bs-dismiss="modal" aria-label="Close"></button></div>
    <div class="modal-body">
      <div class="mb-3"><label class="form-label" for="ev-title">Title</label>
        <input class="form-control" id="ev-title" required></div>
      <div class="mb-3"><label class="form-label" for="ev-start-date">Start</label>
        <div class="row g-2">
          <div class="col-5"><input class="form-control" id="ev-start-date" type="date" required></div>
          <div class="col-3"><select class="form-select" id="ev-start-hour"></select></div>
          <div class="col-2"><select class="form-select" id="ev-start-min"></select></div>
          <div class="col-2"><select class="form-select" id="ev-start-ampm"><option value="AM">AM</option><option value="PM">PM</option></select></div>
        </div>
        <input type="hidden" id="ev-start"></div>
      <div class="mb-3"><label class="form-label" for="ev-end-date">End</label>
        <div class="row g-2">
          <div class="col-5"><input class="form-control" id="ev-end-date" type="date" required></div>
          <div class="col-3"><select class="form-select" id="ev-end-hour"></select></div>
          <div class="col-2"><select class="form-select" id="ev-end-min"></select></div>
          <div class="col-2"><select class="form-select" id="ev-end-ampm"><option value="AM">AM</option><option value="PM">PM</option></select></div>
        </div>
        <input type="hidden" id="ev-end"></div>
      <div class="form-check mb-3">
        <input class="form-check-input" type="checkbox" id="ev-all-day">
        <label class="form-check-label" for="ev-all-day">All day</label>
      </div>
      <div class="row mb-3">
        <div class="col position-relative"><label class="form-label" for="ev-location">Location</label>
          <input class="form-control" id="ev-location" placeholder="Type a place or address" autocomplete="off">
          <div id="ev-places-menu" class="list-group position-absolute shadow" style="top:100%;left:0;right:0;z-index:1060" hidden></div></div>
      </div>
      <div class="mb-3"><label class="form-label">Categories</label>
        <div id="ev-categories-box"></div></div>
      <div class="mb-3"><label class="form-label" for="ev-desc">Description</label>
        <div id="ev-desc"></div></div>
      <!-- Collapses without a script. -->
      <details class="mb-3" id="ev-more-options">
        <summary class="form-label" style="cursor:pointer">More options</summary>
        <div class="mt-2">
          <div class="mb-3"><label class="form-label" for="ev-url">URL</label>
            <input class="form-control" id="ev-url" type="url"></div>
          <div class="row mb-3">
            <div class="col"><label class="form-label" for="ev-status">Status</label>
              <select class="form-select" id="ev-status">
                <option value="">(none)</option>
                <option value="CONFIRMED">Confirmed</option>
                <option value="TENTATIVE">Tentative</option>
                <option value="CANCELLED">Cancelled</option>
              </select></div>
            <div class="col"><label class="form-label" for="ev-class">Visibility</label>
              <select class="form-select" id="ev-class">
                <option value="">(none)</option>
                <option value="PUBLIC">Public</option>
                <option value="PRIVATE">Private</option>
                <option value="CONFIDENTIAL">Confidential</option>
              </select></div>
            <div class="col"><label class="form-label" for="ev-transp">Show as</label>
              <select class="form-select" id="ev-transp">
                <option value="">(none)</option>
                <option value="OPAQUE">Busy</option>
                <option value="TRANSPARENT">Free</option>
              </select></div>
          </div>
          <div class="row mb-3">
            <div class="col"><label class="form-label" for="ev-repeat">Repeat</label>
              <select class="form-select" id="ev-repeat">
                <option value="">Does not repeat</option>
                <option value="DAILY">Daily</option>
                <option value="WEEKLY">Weekly</option>
                <option value="MONTHLY">Monthly</option>
                <option value="YEARLY">Yearly</option>
              </select></div>
            <div class="col" id="ev-repeat-interval-row" hidden>
              <label class="form-label" for="ev-repeat-interval">Every</label>
              <input class="form-control" id="ev-repeat-interval" type="number" min="1" value="1"></div>
            <div class="col" id="ev-repeat-until-row" hidden>
              <label class="form-label" for="ev-repeat-until">Until</label>
              <input class="form-control" id="ev-repeat-until" type="date"></div>
          </div>
        </div>
      </details>
      <div class="mb-3">
        <label class="form-label">Attendees</label>
        <ul id="ev-attendees" class="list-group list-group-flush mb-2"></ul>
        <div class="position-relative">
          <input id="ev-attendee-search" class="form-control form-control-sm" type="text" placeholder="Search contacts…" autocomplete="off">
          <div id="ev-attendee-results" class="list-group position-absolute w-100 shadow-sm" style="z-index: 1060;" hidden></div>
        </div>
      </div>
      <div class="mb-3" id="ev-attachments-section" hidden>
        <label class="form-label">Attachments</label>
        <ul id="ev-attachments" class="list-group list-group-flush mb-2"></ul>
        <input type="file" id="ev-attach-file" class="form-control form-control-sm">
      </div>
    </div>
    <div class="modal-footer">
      <button type="button" class="btn btn-outline-danger me-auto" id="ev-delete" hidden>Delete</button>
      <button class="btn btn-secondary" type="button" data-bs-dismiss="modal">Cancel</button>
      <button class="btn btn-primary" type="submit">Save</button>
    </div>
  </div></div>
</div>
<div class="modal fade" id="share-modal" aria-hidden="true">
  <div class="modal-dialog modal-lg modal-dialog-scrollable"><div class="modal-content">
    <div class="modal-header"><h2 class="modal-title h5">Sharing</h2>
      <button type="button" class="btn-close" data-bs-dismiss="modal"></button></div>
    <div class="modal-body">
      <div class="row g-2 mb-3">
        <div class="col"><input id="acl-user" class="form-control" placeholder="User UUID"></div>
        <div class="col-auto"><select id="acl-cap" class="form-select">
          <option>read_only</option><option>read_write</option><option>owner</option><option>free_busy</option>
        </select></div>
        <div class="col-auto"><button id="acl-add" class="btn btn-primary" type="button">Add</button></div>
      </div>
      <table class="table table-sm"><tbody id="acl-rows"></tbody></table>
      <hr>
      <div class="d-flex gap-2">
        <button id="share-create" class="btn btn-outline-primary btn-sm" type="button">Create public link</button>
        <button id="share-create-caldav" class="btn btn-outline-primary btn-sm" type="button">Create link + CalDAV</button>
      </div>
      <div id="share-out" class="mt-2"></div>
    </div>
  </div></div>
</div>
<div class="modal fade" id="search-modal" aria-hidden="true">
  <div class="modal-dialog modal-lg modal-dialog-scrollable"><div class="modal-content">
    <div class="modal-header"><h2 class="modal-title h5">Search</h2>
      <button type="button" class="btn-close" data-bs-dismiss="modal"></button></div>
    <div class="modal-body">
      <div class="input-group mb-3">
        <input id="search-q" class="form-control" placeholder="Search events…">
        <button id="search-go" class="btn btn-primary" type="button">Search</button>
      </div>
      <ul id="search-results" class="list-group"></ul>
    </div>
  </div></div>
</div>
<div class="modal fade" id="account-modal" aria-hidden="true">
  <div class="modal-dialog"><div class="modal-content">
    <div class="modal-header"><h2 class="modal-title h5">Change password</h2>
      <button type="button" class="btn-close" data-bs-dismiss="modal"></button></div>
    <div class="modal-body">
      <div class="mb-2"><label class="form-label" for="account-current-password">Current password</label>
        <input class="form-control" type="password" id="account-current-password" autocomplete="current-password"></div>
      <div class="mb-2"><label class="form-label" for="account-new-password">New password</label>
        <input class="form-control" type="password" id="account-new-password" autocomplete="new-password" minlength="8"></div>
      <div class="mb-2"><label class="form-label" for="account-new-password-confirm">Confirm new password</label>
        <input class="form-control" type="password" id="account-new-password-confirm" autocomplete="new-password" minlength="8"></div>
      <div id="account-password-msg" class="small text-body-secondary"></div>
      <hr>
      <h3 class="h6">Reminders</h3>
      <div class="form-check"><input class="form-check-input" type="checkbox" id="notify-email">
        <label class="form-check-label" for="notify-email">Email reminders</label></div>
      <div class="form-check"><input class="form-check-input" type="checkbox" id="notify-sms">
        <label class="form-check-label" for="notify-sms">SMS reminders</label></div>
      <div class="form-check"><input class="form-check-input" type="checkbox" id="notify-push">
        <label class="form-check-label" for="notify-push">Push notifications</label></div>
      <div class="mt-2 d-flex gap-2">
        <button id="notify-prefs-save" class="btn btn-outline-primary btn-sm" type="button">Save reminder settings</button>
        <button id="push-enable-btn" class="btn btn-outline-secondary btn-sm" type="button">Enable push on this device</button>
      </div>
      <div id="notify-msg" class="small text-body-secondary mt-1"></div>
    </div>
    <div class="modal-footer">
      <button id="account-password-save" class="btn btn-primary" type="button">Change password</button>
    </div>
  </div></div>
</div>
<div class="modal fade" id="conn-modal" aria-hidden="true">
  <div class="modal-dialog"><div class="modal-content">
    <div class="modal-header"><h2 class="modal-title h5">Connection info</h2>
      <button type="button" class="btn-close" data-bs-dismiss="modal"></button></div>
    <div class="modal-body">
      <div class="mb-3"><label class="form-label">Server URL</label>
        <div class="input-group"><input id="conn-server" class="form-control conn-copy" readonly><button class="btn btn-outline-secondary" type="button" title="Copy"><i class="bi bi-clipboard"></i></button></div></div>
      <div class="mb-3"><label class="form-label">Username</label>
        <div class="input-group"><input id="conn-username" class="form-control conn-copy" readonly><button class="btn btn-outline-secondary" type="button" title="Copy"><i class="bi bi-clipboard"></i></button></div></div>
      <div class="mb-3"><label class="form-label">CalDAV root (calendar home)</label>
        <div class="input-group"><input id="conn-caldav-root" class="form-control conn-copy" readonly><button class="btn btn-outline-secondary" type="button" title="Copy"><i class="bi bi-clipboard"></i></button></div></div>
      <div class="mb-3"><label class="form-label">CalDAV discovery</label>
        <div class="input-group"><input id="conn-caldav-wk" class="form-control conn-copy" readonly><button class="btn btn-outline-secondary" type="button" title="Copy"><i class="bi bi-clipboard"></i></button></div></div>
      <div class="mb-3"><label class="form-label">CardDAV contacts</label>
        <div class="input-group"><input id="conn-carddav" class="form-control conn-copy" readonly><button class="btn btn-outline-secondary" type="button" title="Copy"><i class="bi bi-clipboard"></i></button></div></div>
      <div class="mb-3"><label class="form-label">CardDAV discovery</label>
        <div class="input-group"><input id="conn-carddav-wk" class="form-control conn-copy" readonly><button class="btn btn-outline-secondary" type="button" title="Copy"><i class="bi bi-clipboard"></i></button></div></div>
      <div id="conn-calendar-row" class="mb-3">
        <label class="form-label">Calendar CalDAV URL</label>
        <div class="input-group"><input id="conn-calendar-url" class="form-control conn-copy" readonly><button class="btn btn-outline-secondary" type="button" title="Copy"><i class="bi bi-clipboard"></i></button></div>
      </div>
      <div id="conn-cal-list" class="mb-3">
        <label class="form-label">Calendars</label>
        <div id="conn-cal-rows"></div>
      </div>
      <div class="mb-3"><label class="form-label">Password</label>
        <p class="mb-1 text-body-secondary small">Use an <strong>app password</strong>, not your login password — DAV clients authenticate with Basic auth against app passwords only.</p>
        <a href="/credentials" class="btn btn-outline-primary btn-sm">Manage app passwords</a></div>
    </div>
  </div></div>
</div>
<script src="/assets/js/jquery.min.js"></script>
<script src="/assets/js/jquery-migrate.min.js"></script>
<script src="/assets/js/bootstrap.bundle.min.js"></script>
<script src="/assets/js/bs-calendar.min.js"></script>
<script src="/assets/js/summernote-bs5.min.js"></script>
<script src="/assets/js/dialogs.js"></script>
<script src="/assets/js/app.js?v=16"></script>
</body></html>
